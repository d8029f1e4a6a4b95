//! Sequences of host values as values of the interpreter: a list becomes
//! an array table, a list of pairs a table, and a host iterator a
//! function that gives the next item each time it is called.

use vstd::prelude::*;
use crate::convert::{lemma_pushed_slot, ToLua};
use crate::convert_multi::{lemma_extends_refl, lemma_extends_trans, ToLuaMulti, MULTI_ROOM};
use crate::error::{Error, ErrorView};
use crate::function::{lemma_relocated, Outcome, RsFn};
use crate::slot::Slot;
use crate::stack::MIN_STACK;
use crate::state::{State, StateView};
use crate::state_tables::spec_key_ok;
use crate::userdata::{lemma_heap_extends, lemma_heap_extends_trans, lemma_pushed_table, lemma_stored};
use crate::value::{lemma_extends_ref, ValRef};

verus! {

/// A list of host values that is pushed as an array table: the items are
/// bound to 1, 2, 3 and so on.
pub struct IterVec<T>(pub Vec<T>);

/// A list of pairs of host values that is pushed as a table: each first
/// value is bound to its second. A pair whose first value is nil or NaN
/// is left out.
pub struct IterMap<K, V>(pub Vec<(K, V)>);

/// A host iterator that is pushed as a function which gives the next item
/// each time it is called.
#[derive(Clone, Copy, Debug, PartialEq, Eq, Structural)]
pub struct BoxIter {
    /// The identity of the entry point that asks the iterator for its
    /// next item.
    pub next: usize,
    /// The size in bytes of the boxed iterator.
    pub size: usize,
    /// The host address of the boxed iterator.
    pub iter: usize,
    /// The identity of the entry point that finalizes the iterator.
    pub gc: usize,
}

/// The context after the host value `v` is bound to the integer `i` in
/// table `t`.
pub open spec fn spec_seti<T: ToLua>(s: StateView, t: usize, i: int, v: T) -> StateView {
    let p = v.spec_pushed(s);
    p.stored(t, Slot::Int(i as i64), p.peek(0)).popped(1)
}

/// Whether the items can be bound in table `t` one after the other, from
/// the integer `i` on: each can be pushed when its turn comes.
pub open spec fn spec_fillable<T: ToLua>(items: Seq<T>, s: StateView, t: usize, i: int) -> bool
    decreases items.len(),
{
    if items.len() == 0 {
        true
    } else {
        &&& items[0].spec_pushable(s)
        &&& spec_fillable(items.drop_first(), spec_seti(s, t, i, items[0]), t, i + 1)
    }
}

/// The context after the items are bound in table `t` one after the other,
/// to the integers from `i` on.
pub open spec fn spec_filled<T: ToLua>(items: Seq<T>, s: StateView, t: usize, i: int) -> StateView
    decreases items.len(),
{
    if items.len() == 0 {
        s
    } else {
        spec_filled(items.drop_first(), spec_seti(s, t, i, items[0]), t, i + 1)
    }
}

/// Binding a host value to an integer leaves the stack as it was and
/// only extends the context.
pub proof fn lemma_seti<T: ToLua>(s: StateView, t: usize, i: int, v: T)
    requires
        v.spec_pushable(s),
        !T::spec_is_top(),
        t < s.heap.tables.len(),
    ensures
        spec_seti(s, t, i, v).stack == s.stack,
        spec_seti(s, t, i, v).extends(s),
{
    v.lemma_pushed(s);
    let p = v.spec_pushed(s);
    lemma_stored(p, t, Slot::Int(i as i64), p.peek(0));
    let r = spec_seti(s, t, i, v);
    lemma_heap_extends_trans(s.heap, p.heap, r.heap);
    assert(r.stack =~= s.stack) by {
        assert(p.stack.subrange(0, s.stack.len() as int) == s.stack);
    }
    assert(r.stack.subrange(0, s.stack.len() as int) =~= s.stack);
}

/// Binding a list of host values leaves the stack as it was and only
/// extends the context.
pub proof fn lemma_filled<T: ToLua>(items: Seq<T>, s: StateView, t: usize, i: int)
    requires
        spec_fillable(items, s, t, i),
        !T::spec_is_top(),
        t < s.heap.tables.len(),
    ensures
        spec_filled(items, s, t, i).stack == s.stack,
        spec_filled(items, s, t, i).extends(s),
    decreases items.len(),
{
    if items.len() == 0 {
        lemma_extends_refl(s);
    } else {
        lemma_seti(s, t, i, items[0]);
        let s1 = spec_seti(s, t, i, items[0]);
        lemma_filled(items.drop_first(), s1, t, i + 1);
        lemma_extends_trans(s, s1, spec_filled(items, s, t, i));
    }
}

impl<T: ToLua> ToLua for IterVec<T> {
    open spec fn spec_is_top() -> bool {
        false
    }

    open spec fn spec_pushable(&self, pre: StateView) -> bool {
        &&& !T::spec_is_top()
        &&& pre.has_room(MIN_STACK + 1)
        &&& pre.heap.tables.len() <= usize::MAX
        &&& self.0@.len() < i64::MAX
        &&& spec_fillable(self.0@, pre.pushed_table(), pre.heap.tables.len() as usize, 1)
    }

    open spec fn spec_pushed(&self, pre: StateView) -> StateView {
        spec_filled(self.0@, pre.pushed_table(), pre.heap.tables.len() as usize, 1)
    }

    proof fn lemma_pushed(&self, pre: StateView) {
        lemma_pushed_table(pre);
        lemma_filled(self.0@, pre.pushed_table(), pre.heap.tables.len() as usize, 1);
        lemma_extends_trans(pre, pre.pushed_table(), self.spec_pushed(pre));
    }

    fn is_top() -> (b: bool) {
        false
    }

    fn to_lua(self, s: &mut State) {
        let ghost pre = s@;
        let ghost t = pre.heap.tables.len() as usize;
        let ghost all = self.0@;
        proof {
            lemma_pushed_table(pre);
        }
        let r = s.table(0, 0);
        let mut items = self.0;
        let mut i: i64 = 1;
        while items.len() > 0
            invariant
                s.wf(),
                !T::spec_is_top(),
                1 <= i,
                i + items@.len() <= i64::MAX,
                s@.stack == pre.pushed_table().stack,
                s@.has_room(MIN_STACK as int),
                r.index == s@.top(),
                s@.is_absolute(r.index as int),
                s@.table_at(r.index as int) == Some(t),
                spec_fillable(items@, s@, t, i as int),
                spec_filled(items@, s@, t, i as int) == spec_filled(all, pre.pushed_table(), t, 1),
            decreases items@.len(),
        {
            let ghost cur = s@;
            let ghost rest = items@;
            let e = items.remove(0);
            proof {
                assert(items@ =~= rest.drop_first());
                lemma_seti(cur, t, i as int, e);
                lemma_extends_ref(cur, spec_seti(cur, t, i as int, e), r.index as int);
            }
            let _ = r.seti(s, i, e);
            i = i + 1;
        }
    }
}

/// The context in which `set_pair` binds the pair: the key and the value
/// are on top of the stack.
pub open spec fn spec_pair_ready<K: ToLua, V: ToLua>(s: StateView, k: K, v: V) -> StateView {
    v.spec_pushed(k.spec_pushed(s))
}

/// The context after the host value `k` is bound to the host value `v` in
/// table `t`; a nil or NaN key binds nothing.
pub open spec fn spec_set_pair<K: ToLua, V: ToLua>(s: StateView, t: usize, k: K, v: V)
    -> StateView {
    let ready = spec_pair_ready(s, k, v);
    if spec_key_ok(ready.peek(1)) {
        ready.stored(t, ready.peek(1), ready.peek(0)).popped(2)
    } else {
        ready.popped(2)
    }
}

/// Whether the pairs can be bound in table `t` one after the other.
pub open spec fn spec_pairs_fillable<K: ToLua, V: ToLua>(
    items: Seq<(K, V)>,
    s: StateView,
    t: usize,
) -> bool
    decreases items.len(),
{
    if items.len() == 0 {
        true
    } else {
        &&& items[0].0.spec_pushable(s)
        &&& items[0].1.spec_pushable(items[0].0.spec_pushed(s))
        &&& spec_pairs_fillable(
            items.drop_first(),
            spec_set_pair(s, t, items[0].0, items[0].1),
            t,
        )
    }
}

/// The context after the pairs are bound in table `t` one after the other.
pub open spec fn spec_pairs_filled<K: ToLua, V: ToLua>(items: Seq<(K, V)>, s: StateView, t: usize)
    -> StateView
    decreases items.len(),
{
    if items.len() == 0 {
        s
    } else {
        spec_pairs_filled(items.drop_first(), spec_set_pair(s, t, items[0].0, items[0].1), t)
    }
}

/// Binding a pair leaves the stack as it was and only extends the
/// context.
pub proof fn lemma_set_pair<K: ToLua, V: ToLua>(s: StateView, t: usize, k: K, v: V)
    requires
        k.spec_pushable(s),
        v.spec_pushable(k.spec_pushed(s)),
        !K::spec_is_top(),
        !V::spec_is_top(),
        t < s.heap.tables.len(),
    ensures
        spec_set_pair(s, t, k, v).stack == s.stack,
        spec_set_pair(s, t, k, v).extends(s),
{
    k.lemma_pushed(s);
    let p1 = k.spec_pushed(s);
    v.lemma_pushed(p1);
    let p2 = v.spec_pushed(p1);
    lemma_extends_trans(s, p1, p2);
    lemma_stored(p2, t, p2.peek(1), p2.peek(0));
    let r = spec_set_pair(s, t, k, v);
    lemma_heap_extends(p2.heap, p2.heap);
    lemma_heap_extends_trans(s.heap, p2.heap, r.heap);
    assert(r.stack =~= s.stack) by {
        assert(p2.stack.subrange(0, s.stack.len() as int) == s.stack);
    }
    assert(r.stack.subrange(0, s.stack.len() as int) =~= s.stack);
}

/// Binding a list of pairs leaves the stack as it was and only extends
/// the context.
pub proof fn lemma_pairs_filled<K: ToLua, V: ToLua>(items: Seq<(K, V)>, s: StateView, t: usize)
    requires
        spec_pairs_fillable(items, s, t),
        !K::spec_is_top(),
        !V::spec_is_top(),
        t < s.heap.tables.len(),
    ensures
        spec_pairs_filled(items, s, t).stack == s.stack,
        spec_pairs_filled(items, s, t).extends(s),
    decreases items.len(),
{
    if items.len() == 0 {
        lemma_extends_refl(s);
    } else {
        lemma_set_pair(s, t, items[0].0, items[0].1);
        let s1 = spec_set_pair(s, t, items[0].0, items[0].1);
        lemma_pairs_filled(items.drop_first(), s1, t);
        lemma_extends_trans(s, s1, spec_pairs_filled(items, s, t));
    }
}

impl<K: ToLua, V: ToLua> ToLua for IterMap<K, V> {
    open spec fn spec_is_top() -> bool {
        false
    }

    open spec fn spec_pushable(&self, pre: StateView) -> bool {
        &&& !K::spec_is_top()
        &&& !V::spec_is_top()
        &&& pre.has_room(2 * MIN_STACK + 1)
        &&& pre.heap.tables.len() <= usize::MAX
        &&& spec_pairs_fillable(self.0@, pre.pushed_table(), pre.heap.tables.len() as usize)
    }

    open spec fn spec_pushed(&self, pre: StateView) -> StateView {
        spec_pairs_filled(self.0@, pre.pushed_table(), pre.heap.tables.len() as usize)
    }

    proof fn lemma_pushed(&self, pre: StateView) {
        lemma_pushed_table(pre);
        lemma_pairs_filled(self.0@, pre.pushed_table(), pre.heap.tables.len() as usize);
        lemma_extends_trans(pre, pre.pushed_table(), self.spec_pushed(pre));
    }

    fn is_top() -> (b: bool) {
        false
    }

    fn to_lua(self, s: &mut State) {
        let ghost pre = s@;
        let ghost t = pre.heap.tables.len() as usize;
        let ghost all = self.0@;
        proof {
            lemma_pushed_table(pre);
        }
        let r = s.table(0, 0);
        let mut items = self.0;
        while items.len() > 0
            invariant
                s.wf(),
                !K::spec_is_top(),
                !V::spec_is_top(),
                s@.stack == pre.pushed_table().stack,
                s@.has_room(2 * MIN_STACK),
                r.index == s@.top(),
                s@.is_absolute(r.index as int),
                s@.table_at(r.index as int) == Some(t),
                spec_pairs_fillable(items@, s@, t),
                spec_pairs_filled(items@, s@, t) == spec_pairs_filled(all, pre.pushed_table(), t),
            decreases items@.len(),
        {
            let ghost cur = s@;
            let ghost rest = items@;
            let (k, v) = items.remove(0);
            proof {
                assert(items@ =~= rest.drop_first());
                lemma_set_pair(cur, t, k, v);
                lemma_extends_ref(cur, spec_set_pair(cur, t, k, v), r.index as int);
            }
            // a key that the table refuses binds nothing
            let _ = r.set(s, k, v);
        }
    }
}

impl BoxIter {
    /// A host iterator of `size` bytes that lives at `iter`; `next` asks
    /// it for its next item and `gc` finalizes it.
    pub fn new(next: usize, size: usize, iter: usize, gc: usize) -> (b: BoxIter)
        ensures
            b == (BoxIter { next, size, iter, gc }),
    {
        BoxIter { next, size, iter, gc }
    }

    /// The function that the iterator becomes: a closure whose
    /// environment is the boxed iterator.
    pub open spec fn spec_function(&self) -> RsFn {
        RsFn { entry: self.next, size: self.size, env: self.iter, gc: self.gc }
    }
}

impl ToLua for BoxIter {
    open spec fn spec_is_top() -> bool {
        false
    }

    open spec fn spec_pushable(&self, pre: StateView) -> bool {
        self.spec_function().spec_pushable(pre)
    }

    open spec fn spec_pushed(&self, pre: StateView) -> StateView {
        crate::function::spec_boxed_pushed(pre, self.spec_function()).closed(self.next, 1)
    }

    proof fn lemma_pushed(&self, pre: StateView) {
        lemma_boxed(pre, self.spec_function());
    }

    fn is_top() -> (b: bool) {
        false
    }

    fn to_lua(self, s: &mut State) {
        proof {
            lemma_boxed(s@, self.spec_function());
        }
        s.new_userdata(
            crate::heap::Userdata {
                meta: None,
                size: self.size,
                target: self.iter,
                inline: Some(self.iter),
                uservalue: Slot::Nil,
            },
        );
        s.new_table();
        s.push_fn(self.gc);
        s.raw_set_field(-2, "__gc".as_bytes());
        s.set_metatable(-2);
        s.push_cclosure(self.next, 1);
    }
}

/// Boxing the environment of a closure pushes one cell, a function, and
/// only extends the context.
pub proof fn lemma_boxed(pre: StateView, f: RsFn)
    requires
        f.spec_pushable(pre),
    ensures
        crate::function::spec_boxed_pushed(pre, f).closed(f.entry, 1).extends(pre),
        crate::function::spec_boxed_pushed(pre, f).closed(f.entry, 1).top() == pre.top() + 1,
{
    // a closure whose environment is neither empty nor one pointer wide
    // is boxed, and what is pushed for it does not depend on the size
    let big = RsFn { size: if crate::function::spec_pointer_size() == 4 {
        5
    } else {
        4
    }, ..f };
    assert(crate::function::spec_relocation(big.size) == crate::function::Relocation::Boxed);
    lemma_relocated(pre, big);
    let a = crate::function::spec_boxed_pushed(pre, f);
    let b = crate::function::spec_boxed_pushed(pre, big);
    assert(a.stack == b.stack);
    assert(a.heap.strings == b.heap.strings);
    assert(a.heap.closures == b.heap.closures);
    assert(a.heap.tables == b.heap.tables);
    assert(a.heap.userdata.len() == b.heap.userdata.len());
    let fa = a.closed(f.entry, 1);
    let fb = b.closed(f.entry, 1);
    assert(fa.stack == fb.stack);
    assert(fa.heap.strings == fb.heap.strings);
    assert(fa.heap.closures == fb.heap.closures);
    assert(fa.heap.tables.len() == fb.heap.tables.len());
    assert(fa.heap.userdata.len() == fb.heap.userdata.len());
    assert(fb.extends(pre));
}

/// The native function behind a pushed iterator: hands the next item
/// over, or returns nothing when the iterator is done.
pub fn iterate<T: ToLuaMulti>(s: &mut State, item: Option<T>) -> (r: Result<Outcome, Error>)
    requires
        old(s).wf(),
        old(s)@.has_room(MULTI_ROOM as int),
        item matches Some(v) ==> v.spec_pushable_multi(old(s)@),
    ensures
        final(s).wf(),
        match item {
            None => r == Ok::<Outcome, Error>(Outcome::Return(0)) && final(s)@ == old(s)@,
            Some(v) => match r {
                Ok(o) => {
                    &&& v.spec_raises().is_none()
                    &&& o matches Outcome::Return(n) && n == v.spec_count()
                    &&& final(s)@ == v.spec_pushed_multi(old(s)@)
                },
                Err(e) => {
                    &&& v.spec_raises().is_some()
                    &&& e@ == ErrorView::Runtime(v.spec_raises().unwrap())
                    &&& final(s)@ == old(s)@
                },
            },
        },
{
    match item {
        Some(v) => match v.to_lua(s) {
            Ok(n) => Ok(Outcome::Return(n)),
            Err(e) => Err(e),
        },
        None => Ok(Outcome::Return(0)),
    }
}

} // verus!
