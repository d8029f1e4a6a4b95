//! The opaque object model: how a host type becomes an interpreter object
//! with a metatable that is built once and shared by all objects of the
//! type.

use vstd::prelude::*;
use vstd::string::StringSliceAdditionalSpecFns;
use crate::convert::{lemma_pushed_bytes, lemma_pushed_slot, ToLua};
use crate::convert_multi::{lemma_extends_refl, lemma_extends_trans};
use crate::error::{text, Error};
use crate::heap::{lemma_intern_extends, HeapView, Userdata, REGISTRY};
use crate::slot::Slot;
use crate::stack::{Index, MIN_STACK, REGISTRY_INDEX};
use crate::state::{State, StateView};
use crate::status::Type;
use crate::value::{lemma_extends_ref, ValRef};

verus! {

/// A stack index in a specification.
pub type SpecIndex = int;

/// The number of free cells that building a metatable may need.
pub const INIT_ROOM: i32 = 30;

/// What is configured per host type.
#[derive(Clone, Copy, Debug, PartialEq, Eq, Structural)]
pub struct Policy {
    /// Methods are looked up in the metatable itself.
    pub index_metatable: bool,
    /// Keys are looked up in, and stored to, a table attached to each
    /// object.
    pub index_uservalue: bool,
    /// The entry point of a function that is asked last for a key, if any.
    pub index_getter: Option<usize>,
    /// The length operator gives the size of the object's block.
    pub raw_len: bool,
    /// The object's body lives outside the interpreter's memory; the
    /// interpreter holds an indirection to it.
    pub is_pointer: bool,
    /// The identity cache holds its objects weakly.
    pub weak_ref_cache: bool,
}

impl Policy {
    /// The policy of a type that configures nothing.
    pub open spec fn spec_standard() -> Policy {
        Policy {
            index_metatable: true,
            index_uservalue: false,
            index_getter: None,
            raw_len: false,
            is_pointer: false,
            weak_ref_cache: true,
        }
    }

    /// The policy of a type that configures nothing: methods are looked
    /// up in the metatable, and the identity cache is weak.
    pub fn standard() -> (p: Policy)
        ensures
            p == Self::spec_standard(),
    {
        Policy {
            index_metatable: true,
            index_uservalue: false,
            index_getter: None,
            raw_len: false,
            is_pointer: false,
            weak_ref_cache: true,
        }
    }
}

/// The identities of the native entry points of a host type. The
/// initializer's identity is the key under which the type's metatable is
/// kept in the registry.
#[derive(Clone, Copy, Debug, PartialEq, Eq, Structural)]
pub struct Entries {
    pub init: usize,
    pub index: usize,
    pub newindex: usize,
    pub gc: usize,
    pub len: usize,
}

/// A native function, by the identity of its entry point.
#[derive(Clone, Copy, Debug, PartialEq, Eq, Structural)]
pub struct NativeFn(pub usize);

impl StateView {
    /// The context after a native function without upvalues is pushed.
    pub open spec fn pushed_fn(self, entry: usize) -> StateView {
        self.with_heap(self.heap.with_new_closure(entry, Seq::empty())).pushed(
            Slot::Function(self.heap.closures.len() as usize),
        )
    }

    /// The context after a new empty table is pushed.
    pub open spec fn pushed_table(self) -> StateView {
        self.with_heap(self.heap.with_new_table()).pushed(
            Slot::Table(self.heap.tables.len() as usize),
        )
    }

    /// The context after the value on top of the stack is popped and bound
    /// to the string `k` in table `t`.
    pub open spec fn raw_set_field(self, t: usize, k: Seq<u8>) -> StateView {
        self.interned(k).stored(t, self.str_key(k), self.peek(0)).popped(1)
    }

    /// The context after the value on top of the stack is popped and bound
    /// to the raw address `p` in table `t`.
    pub open spec fn set_pointer(self, t: usize, p: usize) -> StateView {
        self.stored(t, Slot::LightUserdata(p), self.peek(0)).popped(1)
    }

    /// The context after the top `n` cells are replaced by a native
    /// closure that has them as upvalues.
    pub open spec fn closed(self, entry: usize, n: int) -> StateView {
        self.popped(n).with_heap(
            self.heap.with_new_closure(entry, self.stack.subrange(self.top() - n, self.top())),
        ).pushed(Slot::Function(self.heap.closures.len() as usize))
    }

    /// What the registry binds to the raw address `key`.
    pub open spec fn registered(self, key: usize) -> Slot {
        self.lookup(REGISTRY, Slot::LightUserdata(key))
    }
}

impl ToLua for NativeFn {
    open spec fn spec_is_top() -> bool {
        false
    }

    open spec fn spec_pushable(&self, pre: StateView) -> bool {
        true
    }

    open spec fn spec_pushed(&self, pre: StateView) -> StateView {
        pre.pushed_fn(self.0)
    }

    proof fn lemma_pushed(&self, pre: StateView) {
        let mid = pre.with_heap(pre.heap.with_new_closure(self.0, Seq::empty()));
        lemma_pushed_slot(mid, Slot::Function(pre.heap.closures.len() as usize));
        assert(mid.heap.closures.subrange(0, pre.heap.closures.len() as int)
            =~= pre.heap.closures);
        assert(mid.heap.strings.subrange(0, pre.heap.strings.len() as int) =~= pre.heap.strings);
        assert(mid.stack.subrange(0, pre.stack.len() as int) =~= pre.stack);
        assert(mid.extends(pre));
        lemma_extends_trans(pre, mid, self.spec_pushed(pre));
        assert(self.spec_pushed(pre).stack.len() == pre.stack.len() + 1);
        assert(!<NativeFn as ToLua>::spec_is_top());
    }

    fn is_top() -> (b: bool) {
        false
    }

    fn to_lua(self, s: &mut State) {
        s.push_fn(self.0);
    }
}

/// A host type whose values are exposed to the interpreter as opaque
/// objects.
pub trait UserData: Sized {
    /// The name of the type, for diagnostics and for the `__name` field of
    /// its metatable.
    spec fn spec_tname() -> Seq<u8>;

    /// The type's policy.
    spec fn spec_policy() -> Policy;

    /// The identities of the type's native entry points.
    spec fn spec_entries() -> Entries;

    /// The size in bytes of a value of the type.
    spec fn spec_size() -> usize;

    /// The context after the type's methods are added to table `mt`.
    spec fn spec_methods(pre: StateView, mt: SpecIndex) -> StateView;

    /// The context after the type's field getters are added to the table
    /// at `fields`.
    spec fn spec_getter(pre: StateView, fields: SpecIndex) -> StateView;

    /// The context after the type's field setters are added to the table
    /// at `fields`.
    spec fn spec_setter(pre: StateView, fields: SpecIndex) -> StateView;

    /// The address under which the object is kept in the identity cache;
    /// 0 where it is not to be cached.
    spec fn spec_key_to_cache(&self) -> usize;

    /// The host address that identifies the object.
    spec fn spec_address(&self) -> usize;

    /// The three callbacks leave the stack as it was and only extend the
    /// context.
    proof fn lemma_callbacks(pre: StateView, t: SpecIndex)
        requires
            pre.is_absolute(t),
            pre.table_at(t).is_some(),
        ensures
            Self::spec_methods(pre, t).stack == pre.stack,
            Self::spec_methods(pre, t).extends(pre),
            Self::spec_getter(pre, t).stack == pre.stack,
            Self::spec_getter(pre, t).extends(pre),
            Self::spec_setter(pre, t).stack == pre.stack,
            Self::spec_setter(pre, t).extends(pre),
    ;

    /// The name of the type.
    fn tname() -> (n: Vec<u8>)
        ensures
            n@ == Self::spec_tname(),
    ;

    /// The type's policy.
    fn policy() -> (p: Policy)
        ensures
            p == Self::spec_policy(),
    ;

    /// The identities of the type's native entry points.
    fn entries() -> (e: Entries)
        ensures
            e == Self::spec_entries(),
    ;

    /// The size in bytes of a value of the type.
    fn size() -> (n: usize)
        ensures
            n == Self::spec_size(),
    ;

    /// Adds the type's methods to the table `mt`. The stack is left as it
    /// was.
    fn methods(s: &mut State, mt: &ValRef)
        requires
            old(s).wf(),
            old(s)@.has_room(MIN_STACK as int),
            old(s)@.is_absolute(mt.index as int),
            old(s)@.table_at(mt.index as int).is_some(),
        ensures
            final(s)@ == Self::spec_methods(old(s)@, mt.index as int),
            final(s)@.stack == old(s)@.stack,
            final(s)@.extends(old(s)@),
            final(s).wf(),
    ;

    /// Adds the type's field getters to the table `fields`. The stack is
    /// left as it was.
    fn getter(s: &mut State, fields: &ValRef)
        requires
            old(s).wf(),
            old(s)@.has_room(MIN_STACK as int),
            old(s)@.is_absolute(fields.index as int),
            old(s)@.table_at(fields.index as int).is_some(),
        ensures
            final(s)@ == Self::spec_getter(old(s)@, fields.index as int),
            final(s)@.stack == old(s)@.stack,
            final(s)@.extends(old(s)@),
            final(s).wf(),
    ;

    /// Adds the type's field setters to the table `fields`. The stack is
    /// left as it was.
    fn setter(s: &mut State, fields: &ValRef)
        requires
            old(s).wf(),
            old(s)@.has_room(MIN_STACK as int),
            old(s)@.is_absolute(fields.index as int),
            old(s)@.table_at(fields.index as int).is_some(),
        ensures
            final(s)@ == Self::spec_setter(old(s)@, fields.index as int),
            final(s)@.stack == old(s)@.stack,
            final(s)@.extends(old(s)@),
            final(s).wf(),
    ;

    /// The address under which the object is kept in the identity cache;
    /// 0 where it is not to be cached.
    fn key_to_cache(&self) -> (k: usize)
        ensures
            k == self.spec_key_to_cache(),
    ;

    /// The host address that identifies the object.
    fn address(&self) -> (a: usize)
        ensures
            a == self.spec_address(),
    ;
}

/// The context after the metatable at `mt` is filled for the host type
/// `U`: its name, its finalizer, its length operator where the policy asks
/// for one, the index dispatcher closed over the table of getters, the
/// dispatcher for assignments closed over the table of setters, and at
/// last the type's methods.
pub open spec fn spec_init_metatable<U: UserData>(pre: StateView, mt: int) -> StateView {
    let t = pre.table_at(mt).unwrap();
    let e = U::spec_entries();
    let s1 = pre.pushed_bytes(U::spec_tname()).raw_set_field(t, "__name".spec_bytes());
    let s2 = s1.pushed_fn(e.gc).raw_set_field(t, "__gc".spec_bytes());
    let s3 = if U::spec_policy().raw_len {
        s2.pushed_fn(e.len).raw_set_field(t, "__len".spec_bytes())
    } else {
        s2
    };
    let g = s3.pushed_table();
    let s4 = U::spec_getter(g, g.top()).closed(e.index, 1).raw_set_field(t, "__index".spec_bytes());
    let n = s4.pushed_table();
    let s5 = U::spec_setter(n, n.top()).closed(e.newindex, 1).raw_set_field(
        t,
        "__newindex".spec_bytes(),
    );
    U::spec_methods(s5, mt)
}

/// Heap extension is transitive.
pub proof fn lemma_heap_extends_trans(a: HeapView, b: HeapView, c: HeapView)
    requires
        b.extends(a),
        c.extends(b),
    ensures
        c.extends(a),
{
    assert(c.strings.subrange(0, a.strings.len() as int) =~= a.strings) by {
        assert forall|i: int| 0 <= i < a.strings.len() implies c.strings[i] == a.strings[i] by {
            assert(b.strings.subrange(0, a.strings.len() as int)[i] == a.strings[i]);
            assert(c.strings.subrange(0, b.strings.len() as int)[i] == b.strings[i]);
        }
    }
    assert(c.closures.subrange(0, a.closures.len() as int) =~= a.closures) by {
        assert forall|i: int| 0 <= i < a.closures.len() implies c.closures[i]
            == a.closures[i] by {
            assert(b.closures.subrange(0, a.closures.len() as int)[i] == a.closures[i]);
            assert(c.closures.subrange(0, b.closures.len() as int)[i] == b.closures[i]);
        }
    }
}

/// Changing tables and opaque objects in place, and creating objects,
/// extends a heap.
pub proof fn lemma_heap_extends(a: HeapView, b: HeapView)
    requires
        b.strings == a.strings || b.strings == a.strings.push(b.strings.last()),
        b.closures == a.closures || b.closures == a.closures.push(b.closures.last()),
        a.tables.len() <= b.tables.len(),
        a.userdata.len() <= b.userdata.len(),
        a.threads <= b.threads,
    ensures
        b.extends(a),
{
    assert(b.strings.subrange(0, a.strings.len() as int) =~= a.strings);
    assert(b.closures.subrange(0, a.closures.len() as int) =~= a.closures);
}

/// Binding the value on top of the stack to a field pops the value and
/// extends the heap.
pub proof fn lemma_set_field(s: StateView, t: usize, k: Seq<u8>)
    requires
        s.top() >= 1,
        t < s.heap.tables.len(),
    ensures
        s.raw_set_field(t, k).stack == s.stack.drop_last(),
        s.raw_set_field(t, k).extends_heap_of(s),
        s.raw_set_field(t, k).heap.tables.len() == s.heap.tables.len(),
{
    lemma_intern_extends(s.heap, k);
    let h = s.raw_set_field(t, k).heap;
    assert(h.strings == s.heap.intern(k).strings);
    assert(h.closures == s.heap.closures);
    assert(h.closures.subrange(0, s.heap.closures.len() as int) =~= s.heap.closures);
    assert(s.raw_set_field(t, k).stack =~= s.stack.drop_last());
}

/// Pushing a value and binding it to a field leaves the stack as it was
/// and extends the context.
pub proof fn lemma_field_step(pre: StateView, pushed: StateView, t: usize, k: Seq<u8>)
    requires
        pushed.extends(pre),
        pushed.top() == pre.top() + 1,
        t < pre.heap.tables.len(),
    ensures
        pushed.raw_set_field(t, k).stack == pre.stack,
        pushed.raw_set_field(t, k).extends(pre),
{
    lemma_set_field(pushed, t, k);
    let r = pushed.raw_set_field(t, k);
    lemma_heap_extends_trans(pre.heap, pushed.heap, r.heap);
    assert(r.stack =~= pre.stack) by {
        assert(pushed.stack.subrange(0, pre.stack.len() as int) == pre.stack);
    }
    assert(r.stack.subrange(0, pre.stack.len() as int) =~= pre.stack);
}

/// Pushing a table extends the context by one cell, which holds a table.
pub proof fn lemma_pushed_table(pre: StateView)
    ensures
        pre.pushed_table().extends(pre),
        pre.pushed_table().top() == pre.top() + 1,
        pre.pushed_table().is_absolute(pre.top() + 1),
        pre.pushed_table().stack == pre.stack.push(Slot::Table(pre.heap.tables.len() as usize)),
        pre.pushed_table().table_at(pre.top() + 1).is_some(),
        pre.heap.tables.len() <= usize::MAX ==> pre.pushed_table().table_at(pre.top() + 1)
            == Some(pre.heap.tables.len() as usize),
{
    let r = pre.pushed_table();
    lemma_heap_extends(pre.heap, r.heap);
    assert(r.stack.subrange(0, pre.stack.len() as int) =~= pre.stack);
}

/// Closing over the top cell replaces it by a function and extends the
/// heap.
pub proof fn lemma_closed(s: StateView, entry: usize)
    requires
        s.top() >= 1,
    ensures
        s.closed(entry, 1).stack == s.stack.drop_last().push(s.closed(entry, 1).peek(0)),
        s.closed(entry, 1).extends_heap_of(s),
        s.closed(entry, 1).top() == s.top(),
{
    let r = s.closed(entry, 1);
    lemma_heap_extends(s.heap, r.heap);
    assert(r.stack =~= s.stack.drop_last().push(r.peek(0)));
}

/// Filling a metatable leaves the stack as it was and only extends the
/// context.
pub proof fn lemma_init_metatable<U: UserData>(pre: StateView, mt: int)
    requires
        pre.is_absolute(mt),
        pre.table_at(mt).is_some(),
    ensures
        spec_init_metatable::<U>(pre, mt).stack == pre.stack,
        spec_init_metatable::<U>(pre, mt).extends(pre),
{
    let t = pre.table_at(mt).unwrap();
    let e = U::spec_entries();
    let name = U::spec_tname();
    lemma_pushed_bytes(pre, name);
    lemma_field_step(pre, pre.pushed_bytes(name), t, "__name".spec_bytes());
    let s1 = pre.pushed_bytes(name).raw_set_field(t, "__name".spec_bytes());
    lemma_extends_ref(pre, s1, mt);
    NativeFn(e.gc).lemma_pushed(s1);
    lemma_field_step(s1, s1.pushed_fn(e.gc), t, "__gc".spec_bytes());
    let s2 = s1.pushed_fn(e.gc).raw_set_field(t, "__gc".spec_bytes());
    lemma_extends_ref(s1, s2, mt);
    lemma_extends_trans(pre, s1, s2);
    let s3 = if U::spec_policy().raw_len {
        s2.pushed_fn(e.len).raw_set_field(t, "__len".spec_bytes())
    } else {
        s2
    };
    if U::spec_policy().raw_len {
        NativeFn(e.len).lemma_pushed(s2);
        lemma_field_step(s2, s2.pushed_fn(e.len), t, "__len".spec_bytes());
    } else {
        lemma_extends_refl(s2);
    }
    lemma_extends_ref(s2, s3, mt);
    lemma_extends_trans(pre, s2, s3);
    assert(s3.heap.tables.len() == pre.heap.tables.len()) by {
        lemma_set_field(pre.pushed_bytes(name), t, "__name".spec_bytes());
        lemma_set_field(s1.pushed_fn(e.gc), t, "__gc".spec_bytes());
        if U::spec_policy().raw_len {
            lemma_set_field(s2.pushed_fn(e.len), t, "__len".spec_bytes());
        }
    }
    lemma_pushed_table(s3);
    let g = s3.pushed_table();
    U::lemma_callbacks(g, g.top());
    let g2 = U::spec_getter(g, g.top());
    lemma_closed(g2, e.index);
    let g3 = g2.closed(e.index, 1);
    lemma_extends_trans(s3, g, g2);
    lemma_heap_extends_trans(s3.heap, g2.heap, g3.heap);
    assert(g3.stack.subrange(0, s3.stack.len() as int) =~= s3.stack);
    lemma_field_step(s3, g3, t, "__index".spec_bytes());
    let s4 = g3.raw_set_field(t, "__index".spec_bytes());
    lemma_extends_ref(s3, s4, mt);
    lemma_extends_trans(pre, s3, s4);
    lemma_pushed_table(s4);
    let n = s4.pushed_table();
    U::lemma_callbacks(n, n.top());
    let n2 = U::spec_setter(n, n.top());
    lemma_closed(n2, e.newindex);
    let n3 = n2.closed(e.newindex, 1);
    lemma_extends_trans(s4, n, n2);
    lemma_heap_extends_trans(s4.heap, n2.heap, n3.heap);
    assert(n3.stack.subrange(0, s4.stack.len() as int) =~= s4.stack);
    lemma_field_step(s4, n3, t, "__newindex".spec_bytes());
    let s5 = n3.raw_set_field(t, "__newindex".spec_bytes());
    lemma_extends_ref(s4, s5, mt);
    lemma_extends_trans(pre, s4, s5);
    U::lemma_callbacks(s5, mt);
    lemma_extends_trans(pre, s5, U::spec_methods(s5, mt));
}

/// Fills the metatable at `mt` for the host type `U`. The stack is left
/// as it was.
pub fn init_metatable<U: UserData>(s: &mut State, mt: &ValRef)
    requires
        old(s).wf(),
        old(s)@.has_room(INIT_ROOM as int),
        old(s)@.is_absolute(mt.index as int),
        old(s)@.table_at(mt.index as int).is_some(),
    ensures
        final(s)@ == spec_init_metatable::<U>(old(s)@, mt.index as int),
        final(s)@.stack == old(s)@.stack,
        final(s)@.extends(old(s)@),
        final(s).wf(),
{
    let ghost pre = s@;
    let ghost t = pre.table_at(mt.index as int).unwrap();
    let e = U::entries();
    let name = U::tname();
    proof {
        lemma_pushed_bytes(pre, name@);
        lemma_extends_ref(pre, pre.pushed_bytes(name@), mt.index as int);
        lemma_field_step(pre, pre.pushed_bytes(name@), t, "__name".spec_bytes());
    }
    s.push_bytes(name.as_slice());
    s.raw_set_field(mt.index, "__name".as_bytes());
    let ghost s1 = s@;
    proof {
        NativeFn(e.gc).lemma_pushed(s1);
        lemma_extends_ref(pre, s1, mt.index as int);
        lemma_extends_ref(s1, s1.pushed_fn(e.gc), mt.index as int);
        lemma_field_step(s1, s1.pushed_fn(e.gc), t, "__gc".spec_bytes());
    }
    s.push_fn(e.gc);
    s.raw_set_field(mt.index, "__gc".as_bytes());
    let ghost s2 = s@;
    proof {
        lemma_extends_ref(s1, s2, mt.index as int);
        lemma_extends_refl(s2);
    }
    if U::policy().raw_len {
        proof {
            NativeFn(e.len).lemma_pushed(s2);
            lemma_extends_ref(s2, s2.pushed_fn(e.len), mt.index as int);
            lemma_field_step(s2, s2.pushed_fn(e.len), t, "__len".spec_bytes());
        }
        s.push_fn(e.len);
        s.raw_set_field(mt.index, "__len".as_bytes());
    }
    let ghost s3 = s@;
    proof {
        lemma_extends_ref(s2, s3, mt.index as int);
        lemma_pushed_table(s3);
    }
    let getter = s.table(0, 0);
    let ghost g = s@;
    U::getter(s, &getter);
    let ghost g2 = s@;
    proof {
        lemma_extends_ref(s3, g, mt.index as int);
        lemma_extends_ref(g, g2, mt.index as int);
        lemma_closed(g2, e.index);
    }
    s.push_cclosure(e.index, 1);
    let ghost g3 = s@;
    proof {
        lemma_extends_trans(s3, g, g2);
        lemma_heap_extends_trans(s3.heap, g2.heap, g3.heap);
        assert(g3.stack.subrange(0, s3.stack.len() as int) =~= s3.stack);
        lemma_extends_ref(s3, g3, mt.index as int);
        lemma_field_step(s3, g3, t, "__index".spec_bytes());
    }
    s.raw_set_field(mt.index, "__index".as_bytes());
    let ghost s4 = s@;
    proof {
        lemma_extends_ref(s3, s4, mt.index as int);
        lemma_pushed_table(s4);
    }
    let setter = s.table(0, 0);
    let ghost n = s@;
    U::setter(s, &setter);
    let ghost n2 = s@;
    proof {
        lemma_extends_ref(s4, n, mt.index as int);
        lemma_extends_ref(n, n2, mt.index as int);
        lemma_closed(n2, e.newindex);
    }
    s.push_cclosure(e.newindex, 1);
    let ghost n3 = s@;
    proof {
        lemma_extends_trans(s4, n, n2);
        lemma_heap_extends_trans(s4.heap, n2.heap, n3.heap);
        assert(n3.stack.subrange(0, s4.stack.len() as int) =~= s4.stack);
        lemma_extends_ref(s4, n3, mt.index as int);
        lemma_field_step(s4, n3, t, "__newindex".spec_bytes());
    }
    s.raw_set_field(mt.index, "__newindex".as_bytes());
    let ghost s5 = s@;
    proof {
        lemma_extends_ref(s4, s5, mt.index as int);
    }
    U::methods(s, mt);
    proof {
        lemma_extends_trans(pre, s1, s2);
        lemma_extends_trans(pre, s2, s3);
        lemma_extends_trans(pre, s3, s4);
        lemma_extends_trans(pre, s4, s5);
        lemma_extends_trans(pre, s5, s@);
    }
}

impl StateView {
    /// Whether the heap of this context extends that of `old`, and the
    /// running function and the thread are the same.
    pub open spec fn extends_heap_of(self, old: StateView) -> bool {
        &&& self.upvalues == old.upvalues
        &&& self.thread == old.thread
        &&& self.heap.extends(old.heap)
    }
}

/// A context with the same cells at the bottom and an extended heap
/// extends the other.
pub proof fn lemma_extends_of(a: StateView, b: StateView)
    requires
        b.extends_heap_of(a),
        a.stack.len() <= b.stack.len(),
        forall|i: int| 0 <= i < a.stack.len() ==> b.stack[i] == a.stack[i],
    ensures
        b.extends(a),
{
    assert(b.stack.subrange(0, a.stack.len() as int) =~= a.stack);
}

impl ToLua for ValRef {
    open spec fn spec_is_top() -> bool {
        false
    }

    open spec fn spec_pushable(&self, pre: StateView) -> bool {
        true
    }

    open spec fn spec_pushed(&self, pre: StateView) -> StateView {
        pre.pushed(pre.value_at(self.index as int))
    }

    proof fn lemma_pushed(&self, pre: StateView) {
        lemma_pushed_slot(pre, pre.value_at(self.index as int));
    }

    fn is_top() -> (b: bool) {
        false
    }

    fn to_lua(self, s: &mut State) {
        s.push_value(self.index);
    }
}

/// The context after the metatable of the host type `U` is built, kept
/// in the registry and pushed: a new table is filled for the type, bound
/// in the registry to its `__name` where that is a string, and bound to
/// the identity of the type's initializer.
pub open spec fn spec_new_metatable<U: UserData>(pre: StateView) -> StateView {
    let p0 = pre.pushed(Slot::Nil).pushed_table();
    let t = pre.heap.tables.len() as usize;
    let s1 = spec_init_metatable::<U>(p0, p0.top());
    let s2 = s1.interned("__name".spec_bytes());
    let name = s2.lookup(t, s1.str_key("__name".spec_bytes()));
    let s3 = if name is Str {
        s2.stored(REGISTRY, name, Slot::Table(t))
    } else {
        s2
    };
    s3.stored(REGISTRY, Slot::LightUserdata(U::spec_entries().init), Slot::Table(t)).with_stack(
        pre.stack.push(Slot::Table(t)),
    )
}

/// The context after the metatable of the host type `U` is pushed: the
/// one that the registry holds for the type, or a new one where it holds
/// none yet.
pub open spec fn spec_with_metatable<U: UserData>(pre: StateView) -> StateView {
    let found = pre.registered(U::spec_entries().init);
    if found == Slot::Nil {
        spec_new_metatable::<U>(pre)
    } else {
        pre.pushed(found)
    }
}

/// Storing to a table extends the heap and keeps the stack.
pub proof fn lemma_stored(s: StateView, t: usize, k: Slot, v: Slot)
    requires
        t < s.heap.tables.len(),
    ensures
        s.stored(t, k, v).stack == s.stack,
        s.stored(t, k, v).extends_heap_of(s),
        s.stored(t, k, v).heap.tables.len() == s.heap.tables.len(),
        s.stored(t, k, v).lookup(t, k) == v,
        forall|t2: usize, k2: Slot|
            t2 != t || crate::state_tables::spec_key(k2) != crate::state_tables::spec_key(k)
                ==> #[trigger] s.stored(t, k, v).lookup(t2, k2) == s.lookup(t2, k2),
        forall|x: Slot| #[trigger] s.stored(t, k, v).meta_of(x) == s.meta_of(x),
{
    let r = s.stored(t, k, v);
    lemma_heap_extends(s.heap, r.heap);
    crate::table::lemma_get_set(
        s.heap.tables[t as int],
        crate::state_tables::spec_key(k),
        v,
        crate::state_tables::spec_key(k),
    );
    assert forall|t2: usize, k2: Slot|
        t2 != t || crate::state_tables::spec_key(k2) != crate::state_tables::spec_key(
            k,
        ) implies #[trigger] r.lookup(t2, k2) == s.lookup(t2, k2) by {
        if t2 == t {
            crate::table::lemma_get_set(
                s.heap.tables[t as int],
                crate::state_tables::spec_key(k),
                v,
                crate::state_tables::spec_key(k2),
            );
        }
    }
    assert forall|x: Slot| #[trigger] r.meta_of(x) == s.meta_of(x) by {
        crate::table::lemma_get_set(
            s.heap.tables[t as int],
            crate::state_tables::spec_key(k),
            v,
            crate::state_tables::spec_key(k),
        );
    }
}

impl State {
    /// Pushes the metatable of the host type `U`. It is built the first
    /// time it is asked for and kept in the registry under the identity
    /// of the type's initializer; from then on the same table is pushed.
    pub fn get_or_init_metatable<U: UserData>(&mut self)
        requires
            old(self).wf(),
            old(self)@.has_room(INIT_ROOM + 2),
        ensures
            final(self)@ == spec_with_metatable::<U>(old(self)@),
            final(self)@.top() == old(self)@.top() + 1,
            final(self)@.extends(old(self)@),
            final(self)@.registered(U::spec_entries().init) == final(self)@.peek(0),
            final(self)@.peek(0) != Slot::Nil,
            old(self)@.registered(U::spec_entries().init) == Slot::Nil
                ==> final(self)@.table_at(-1).is_some(),
            final(self).wf(),
    {
        let ghost pre = self@;
        let key = U::entries().init;
        let reg = self.c_reg();
        let metatable = reg.getp(self, key);
        proof {
            lemma_pushed_slot(pre, pre.registered(key));
        }
        if metatable.is_nil(self) {
            proof {
                lemma_pushed_table(self@);
            }
            let mt = self.table(0, 0);
            let ghost p0 = self@;
            let ghost t = pre.heap.tables.len() as usize;
            init_metatable::<U>(self, &mt);
            let ghost s1 = self@;
            proof {
                lemma_extends_ref(p0, s1, mt.index as int);
                lemma_intern_extends(s1.heap, "__name".spec_bytes());
                lemma_pushed_slot(
                    s1.interned("__name".spec_bytes()),
                    s1.interned("__name".spec_bytes()).lookup(
                        t,
                        s1.str_key("__name".spec_bytes()),
                    ),
                );
            }
            let ty = self.raw_get_field(-1, "__name".as_bytes());
            let ghost s2 = s1.interned("__name".spec_bytes());
            let ghost name = s2.lookup(t, s1.str_key("__name".spec_bytes()));
            if ty == Type::String {
                self.push_value(-2);
                // a string is a key that every table takes
                let _ = self.raw_set(reg.index);
                proof {
                    lemma_stored(s2, REGISTRY, name, Slot::Table(t));
                    assert(self@.stack =~= p0.stack);
                }
            } else {
                self.pop(1);
                proof {
                    assert(self@.stack =~= p0.stack);
                }
            }
            let ghost s3 = self@;
            proof {
                assert(s3.heap.tables.len() == s1.heap.tables.len());
                assert(s3.table_at(mt.index as int) == Some(t));
                lemma_stored(s3, REGISTRY, Slot::LightUserdata(key), Slot::Table(t));
            }
            reg.setp(self, key, mt);
            proof {
                assert(self@.stack =~= p0.stack);
            }
            self.replace(-2);
            proof {
                let fin = self@;
                assert(fin.stack =~= pre.stack.push(Slot::Table(t)));
                assert(fin.extends_heap_of(pre)) by {
                    lemma_heap_extends_trans(pre.heap, p0.heap, s1.heap);
                    lemma_heap_extends_trans(pre.heap, s1.heap, s2.heap);
                    lemma_heap_extends_trans(pre.heap, s2.heap, s3.heap);
                    lemma_heap_extends_trans(pre.heap, s3.heap, fin.heap);
                }
                assert(fin.stack.subrange(0, pre.stack.len() as int) =~= pre.stack);
            }
        }
    }

    /// Gives the table or opaque object on top of the stack the
    /// metatable of the host type `U`.
    pub fn set_or_init_metatable<U: UserData>(&mut self)
        requires
            old(self).wf(),
            old(self)@.has_room(INIT_ROOM + 2),
            old(self)@.top() >= 1,
            old(self)@.table_at(-1).is_some() || old(self)@.userdata_at(-1).is_some(),
            spec_with_metatable::<U>(old(self)@).peek(0) is Table,
        ensures
            final(self)@ == spec_with_metatable::<U>(old(self)@).with_meta(
                old(self)@.peek(0),
                match spec_with_metatable::<U>(old(self)@).peek(0) {
                    Slot::Table(m) => Some(m),
                    _ => None,
                },
            ).popped(1),
            final(self)@.stack == old(self)@.stack,
            final(self)@.extends_heap_of(old(self)@),
            final(self).wf(),
    {
        let ghost pre = self@;
        self.get_or_init_metatable::<U>();
        proof {
            lemma_extends_ref(pre, self@, pre.top());
            assert(self@.value_at(-2) == pre.peek(0));
        }
        let ghost mid = self@;
        self.set_metatable(-2);
        proof {
            let fin = self@;
            assert(fin.stack =~= pre.stack);
            lemma_heap_extends(mid.heap, fin.heap);
            lemma_heap_extends_trans(pre.heap, mid.heap, fin.heap);
        }
    }

    /// Builds the metatable of the host type `U` if the registry does not
    /// hold it yet. The stack is left as it was.
    pub fn register_usertype<U: UserData>(&mut self)
        requires
            old(self).wf(),
            old(self)@.has_room(INIT_ROOM + 2),
        ensures
            final(self)@ == spec_with_metatable::<U>(old(self)@).popped(1),
            final(self)@.stack == old(self)@.stack,
            final(self)@.registered(U::spec_entries().init) != Slot::Nil,
            final(self).wf(),
    {
        self.get_or_init_metatable::<U>();
        self.pop(1);
        proof {
            assert(self@.stack =~= old(self)@.stack);
        }
    }

    /// Pushes the metatable of the host type `U` and refers to it.
    pub fn metatable<U: UserData>(&mut self) -> (r: ValRef)
        requires
            old(self).wf(),
            old(self)@.has_room(INIT_ROOM + 2),
        ensures
            final(self)@ == spec_with_metatable::<U>(old(self)@),
            r.index == final(self)@.top(),
            final(self).wf(),
    {
        self.get_or_init_metatable::<U>();
        self.val(-1)
    }

    /// Whether the value is an opaque object of the host type whose
    /// initializer is `key`: whether its metatable is the one that the
    /// registry holds for the type.
    pub open spec fn spec_is_instance(s: StateView, v: Slot, key: usize) -> bool {
        match s.meta_of(v) {
            Some(m) => s.registered(key) == Slot::Table(m),
            None => false,
        }
    }

    /// The host address of the opaque object at `i` if it is of the host
    /// type whose initializer is `key`; `None` otherwise. Nothing is
    /// pushed or raised.
    pub fn test_userdata_meta_(&self, i: Index, key: usize) -> (r: Option<usize>)
        requires
            self.wf(),
        ensures
            r == match self@.userdata_at(i as int) {
                Some(u) => if Self::spec_is_instance(self@, Slot::Userdata(u), key) {
                    Some(self@.heap.userdata[u as int].target)
                } else {
                    None
                },
                None => None,
            },
    {
        match self.userdata_at(i) {
            Some(u) => {
                let o = self.heap.get_userdata(u).unwrap();
                match o.meta {
                    Some(m) => {
                        let reg = self.heap.table_get(REGISTRY, Slot::LightUserdata(key));
                        if reg == Slot::Table(m) {
                            Some(o.target)
                        } else {
                            None
                        }
                    },
                    None => None,
                }
            },
            None => None,
        }
    }

    /// Like `test_userdata_meta_`.
    pub fn test_userdata_meta(&self, i: Index, key: usize) -> (r: Option<usize>)
        requires
            self.wf(),
        ensures
            r == match self@.userdata_at(i as int) {
                Some(u) => if Self::spec_is_instance(self@, Slot::Userdata(u), key) {
                    Some(self@.heap.userdata[u as int].target)
                } else {
                    None
                },
                None => None,
            },
    {
        self.test_userdata_meta_(i, key)
    }

    /// The host address of the opaque object at `i` if it is of the host
    /// type `U`; the type error to raise otherwise.
    pub fn check_userdata<U: UserData>(&self, i: Index) -> (r: Result<usize, Error>)
        requires
            self.wf(),
        ensures
            match r {
                Ok(a) => self@.userdata_at(i as int).is_some() && Self::spec_is_instance(
                    self@,
                    self@.value_at(i as int),
                    U::spec_entries().init,
                ) && a == self@.heap.userdata[self@.userdata_at(i as int).unwrap() as int].target,
                Err(e) => !(self@.userdata_at(i as int).is_some() && Self::spec_is_instance(
                    self@,
                    self@.value_at(i as int),
                    U::spec_entries().init,
                )) && e@ == self@.type_error(i as int, U::spec_tname()),
            },
    {
        match self.test_userdata_meta_(i, U::entries().init) {
            Some(a) => Ok(a),
            None => {
                let n = U::tname();
                Err(self.type_error(i, n.as_slice()))
            },
        }
    }
}

} // verus!
