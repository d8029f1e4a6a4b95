//! Exposing host objects: how a host value becomes an opaque object of
//! the interpreter, and how the identity cache makes the same host object
//! the same interpreter object each time it is exposed.
//!
//! The cache of a host type is the metatable of the type's metatable: a
//! table from host addresses to the opaque objects made for them. The
//! interpreter modelled here never collects, so a weak cache keeps what
//! it holds.

use vstd::prelude::*;
use vstd::string::StringSliceAdditionalSpecFns;
use crate::convert::{lemma_pushed_bytes, lemma_pushed_slot, ToLua};
use crate::heap::{lemma_intern_extends, Userdata, REGISTRY};
use crate::slot::Slot;
use crate::stack::{MIN_STACK, REGISTRY_INDEX};
use crate::state::{State, StateView};
use crate::status::Type;
use crate::userdata::{
    lemma_field_step, lemma_heap_extends, lemma_heap_extends_trans, lemma_pushed_table,
    lemma_stored, spec_with_metatable, UserData, INIT_ROOM,
};

verus! {

/// The registry key under which the metatable shared by weak caches is
/// kept.
pub const WEAK_META_KEY: usize = 1;

/// The number of free cells that exposing a host object may need.
pub const OBJECT_ROOM: i32 = 40;

/// The context after the metatable of weak caches is pushed: the table
/// that the registry holds for it, or a new table whose `__mode` is `"v"`
/// and which the registry holds from then on.
pub open spec fn spec_weak_meta(pre: StateView) -> StateView {
    let found = pre.registered(WEAK_META_KEY);
    if found is Table {
        pre.pushed(found)
    } else {
        let w = pre.heap.tables.len() as usize;
        let a = pre.pushed_table().pushed_bytes("v".spec_bytes()).raw_set_field(
            w,
            "__mode".spec_bytes(),
        );
        a.pushed(Slot::Table(w)).set_pointer(REGISTRY, WEAK_META_KEY)
    }
}

/// Pushes the metatable of weak caches, creating it the first time.
pub fn get_weak_meta(s: &mut State)
    requires
        old(s).wf(),
        old(s)@.has_room(4),
    ensures
        final(s)@ == spec_weak_meta(old(s)@),
        final(s)@.top() == old(s)@.top() + 1,
        final(s)@.peek(0) is Table,
        final(s)@.stack == old(s)@.stack.push(final(s)@.peek(0)),
        final(s)@.extends_heap_of(old(s)@),
        final(s).wf(),
{
    let ghost pre = s@;
    s.push_light_userdata(WEAK_META_KEY);
    let t = s.raw_get(REGISTRY_INDEX);
    proof {
        assert(s@.stack =~= pre.stack.push(pre.registered(WEAK_META_KEY)));
        lemma_heap_extends(pre.heap, pre.heap);
    }
    if !matches!(t, Type::Table) {
        s.pop(1);
        proof {
            assert(s@.stack =~= pre.stack);
            lemma_pushed_table(pre);
        }
        s.new_table();
        let ghost a = s@;
        let ghost w = pre.heap.tables.len() as usize;
        proof {
            lemma_pushed_bytes(a, "v".spec_bytes());
            lemma_field_step(a, a.pushed_bytes("v".spec_bytes()), w, "__mode".spec_bytes());
        }
        s.push_bytes("v".as_bytes());
        s.raw_set_field(-2, "__mode".as_bytes());
        let ghost b = s@;
        proof {
            assert(b.stack =~= pre.stack.push(Slot::Table(w)));
            lemma_stored(b.pushed(Slot::Table(w)), REGISTRY, Slot::LightUserdata(WEAK_META_KEY), Slot::Table(w));
        }
        s.push_value(-1);
        s.raw_setp(REGISTRY_INDEX, WEAK_META_KEY);
        proof {
            let fin = s@;
            assert(fin.stack =~= pre.stack.push(Slot::Table(w)));
            lemma_heap_extends_trans(pre.heap, a.heap, b.heap);
            lemma_heap_extends_trans(pre.heap, b.heap, fin.heap);
        }
    }
}

/// The metatable of weak caches is pushed as one more cell that holds a
/// table; the heap is only extended, no table gets another metatable, and
/// the registry is changed at most at the key of that metatable.
pub proof fn lemma_weak_meta(pre: StateView)
    requires
        1 <= pre.heap.tables.len() <= usize::MAX,
    ensures
        spec_weak_meta(pre).stack == pre.stack.push(spec_weak_meta(pre).peek(0)),
        spec_weak_meta(pre).peek(0) is Table,
        spec_weak_meta(pre).extends_heap_of(pre),
        forall|k: usize|
            k != WEAK_META_KEY ==> #[trigger] spec_weak_meta(pre).registered(k) == pre.registered(
                k,
            ),
        forall|t: usize|
            t < pre.heap.tables.len() ==> #[trigger] spec_weak_meta(pre).heap.table_meta(t)
                == pre.heap.table_meta(t),
        forall|t: usize, k: Slot|
            t < pre.heap.tables.len() && t != REGISTRY ==> #[trigger] spec_weak_meta(pre).lookup(
                t,
                k,
            ) == pre.lookup(t, k),
        forall|u: usize| #[trigger]
            spec_weak_meta(pre).heap.get_userdata(u) == pre.heap.get_userdata(u),
{
    let found = pre.registered(WEAK_META_KEY);
    lemma_heap_extends(pre.heap, pre.heap);
    if found is Table {
        assert(pre.pushed(found).stack =~= pre.stack.push(found));
    } else {
        let w = pre.heap.tables.len() as usize;
        lemma_pushed_table(pre);
        let a0 = pre.pushed_table();
        lemma_pushed_bytes(a0, "v".spec_bytes());
        let a1 = a0.pushed_bytes("v".spec_bytes());
        assert(w < a0.heap.tables.len());
        lemma_field_step(a0, a1, w, "__mode".spec_bytes());
        let a = a1.raw_set_field(w, "__mode".spec_bytes());
        let b = a.pushed(Slot::Table(w));
        lemma_stored(b, REGISTRY, Slot::LightUserdata(WEAK_META_KEY), Slot::Table(w));
        let fin = spec_weak_meta(pre);
        assert(fin.stack =~= pre.stack.push(Slot::Table(w)));
        lemma_heap_extends_trans(pre.heap, a0.heap, a.heap);
        lemma_heap_extends_trans(pre.heap, a.heap, fin.heap);
        // what the new table and the registry entry leave untouched
        let i1 = a1.interned("__mode".spec_bytes());
        lemma_stored(i1, w, a1.str_key("__mode".spec_bytes()), a1.peek(0));
        assert forall|t: usize, k: Slot| t < pre.heap.tables.len() implies #[trigger] a.lookup(t, k)
            == pre.lookup(t, k) by {
            assert(i1.lookup(t, k) == pre.lookup(t, k));
        }
        assert forall|t: usize| t < pre.heap.tables.len() implies #[trigger] fin.heap.table_meta(
            t,
        ) == pre.heap.table_meta(t) by {
            assert(fin.meta_of(Slot::Table(t)) == b.meta_of(Slot::Table(t)));
            assert(a.meta_of(Slot::Table(t)) == i1.meta_of(Slot::Table(t)));
        }
        assert forall|u: usize| #[trigger] fin.heap.get_userdata(u) == pre.heap.get_userdata(
            u,
        ) by {}
        assert forall|k: usize| k != WEAK_META_KEY implies #[trigger] fin.registered(k)
            == pre.registered(k) by {
            assert(b.stored(
                REGISTRY,
                Slot::LightUserdata(WEAK_META_KEY),
                Slot::Table(w),
            ).lookup(REGISTRY, Slot::LightUserdata(k)) == b.lookup(
                REGISTRY,
                Slot::LightUserdata(k),
            ));
            assert(a.lookup(REGISTRY, Slot::LightUserdata(k)) == pre.lookup(
                REGISTRY,
                Slot::LightUserdata(k),
            ));
        }
        assert forall|t: usize, k: Slot|
            t < pre.heap.tables.len() && t != REGISTRY implies #[trigger] fin.lookup(t, k)
            == pre.lookup(t, k) by {
            assert(b.stored(
                REGISTRY,
                Slot::LightUserdata(WEAK_META_KEY),
                Slot::Table(w),
            ).lookup(t, k) == b.lookup(t, k));
            assert(a.lookup(t, k) == pre.lookup(t, k));
        }
    }
}

/// The table that a value is, if it is one.
pub open spec fn spec_table_of(v: Slot) -> Option<usize> {
    match v {
        Slot::Table(t) => Some(t),
        _ => None,
    }
}

/// The context after the metatable of the host type `U` and its cache
/// are pushed. The cache is the metatable of the type's metatable; where
/// there is none yet, a new table becomes the cache, with the shared weak
/// metatable where the policy asks for a weak cache.
pub open spec fn spec_with_cache<U: UserData>(pre: StateView) -> StateView {
    let m = spec_with_metatable::<U>(pre);
    match m.meta_at(-1) {
        Some(c) => m.pushed(Slot::Table(c)),
        None => {
            let c = m.heap.tables.len() as usize;
            let a = m.pushed_table().pushed(Slot::Table(c)).with_meta(m.peek(0), Some(c)).popped(
                1,
            );
            if U::spec_policy().weak_ref_cache {
                let w = spec_weak_meta(a);
                w.with_meta(Slot::Table(c), spec_table_of(w.peek(0))).popped(1)
            } else {
                a
            }
        },
    }
}

/// What the cache of the host type `U` binds to the host address `key`,
/// once the cache is there.
pub open spec fn spec_cached<U: UserData>(pre: StateView, key: usize) -> Slot {
    let c = spec_with_cache::<U>(pre);
    c.lookup(spec_table_of(c.peek(0)).unwrap(), Slot::LightUserdata(key))
}

/// The context after the cache of the host type `U` is asked for the host
/// address `key`: where it holds an opaque object for it, that object is
/// pushed; otherwise the type's metatable, the cache and the key are
/// pushed, for the object that is to be made.
pub open spec fn spec_get_cached<U: UserData>(pre: StateView, key: usize) -> StateView {
    let c = spec_with_cache::<U>(pre);
    let found = spec_cached::<U>(pre, key);
    if found is Userdata {
        c.with_stack(pre.stack.push(found))
    } else {
        c.pushed(Slot::LightUserdata(key))
    }
}

/// What exposing an object of the host type `U` asks of the context: the
/// identity of the type's initializer is not the registry key of the weak
/// metatable, what the registry holds for the type is a table, and the
/// cache of the type, if it has one, is a table other than the registry.
pub open spec fn spec_type_ready<U: UserData>(pre: StateView) -> bool {
    spec_type_ready_for::<U>(pre, 1)
}

/// What exposing `n` objects of the host type `U` one after the other
/// asks of the context: what exposing one asks, and handles for all the
/// objects that are made on the way.
pub open spec fn spec_type_ready_for<U: UserData>(pre: StateView, n: int) -> bool {
    let m = spec_with_metatable::<U>(pre);
    &&& U::spec_entries().init != WEAK_META_KEY
    &&& m.table_at(-1).is_some()
    &&& m.heap.tables.len() >= 2
    &&& m.heap.tables.len() + 3 * n <= usize::MAX
    &&& m.heap.userdata.len() + n <= usize::MAX
    &&& m.heap.strings.len() + 2 * n <= usize::MAX
    &&& m.heap.closures.len() <= usize::MAX
    &&& match m.meta_at(-1) {
        Some(c) => c < m.heap.tables.len() && c != REGISTRY,
        None => true,
    }
}

/// A context in which the registry holds a table for the host type `U`
/// is ready for exposing objects of the type, as far as the heap has
/// handles left.
pub proof fn lemma_ready_when_registered<U: UserData>(s: StateView, mt: usize)
    requires
        U::spec_entries().init != WEAK_META_KEY,
        s.registered(U::spec_entries().init) == Slot::Table(mt),
        mt < s.heap.tables.len(),
        match s.heap.table_meta(mt) {
            Some(c) => c < s.heap.tables.len() && c != REGISTRY,
            None => true,
        },
        s.heap.tables.len() >= 2,
        s.heap.tables.len() + 3 <= usize::MAX,
        s.heap.userdata.len() + 1 <= usize::MAX,
        s.heap.strings.len() + 2 <= usize::MAX,
        s.heap.closures.len() <= usize::MAX,
    ensures
        spec_type_ready::<U>(s),
{
    let m = spec_with_metatable::<U>(s);
    assert(m == s.pushed(Slot::Table(mt)));
    assert(m.table_at(-1) == Some(mt));
}

/// Builds the metatable of the host type `U` if the registry does not
/// hold it yet, and says whether the context is then ready for exposing
/// objects of the type. The stack is left as it was.
pub fn prepare<U: UserData>(s: &mut State) -> (ready: bool)
    requires
        old(s).wf(),
        old(s)@.has_room(INIT_ROOM + 2),
    ensures
        final(s)@ == spec_with_metatable::<U>(old(s)@).popped(1),
        final(s)@.stack == old(s)@.stack,
        ready ==> spec_type_ready::<U>(final(s)@),
        final(s).wf(),
{
    s.register_usertype::<U>();
    let init = U::entries().init;
    if init == WEAK_META_KEY {
        return false;
    }
    let (strings, tables, objects, _) = s.heap.counts();
    if tables > usize::MAX - 3 || objects > usize::MAX - 1 || strings > usize::MAX - 2 {
        return false;
    }
    match s.heap.table_get(REGISTRY, Slot::LightUserdata(init)) {
        Slot::Table(mt) => {
            if !s.heap.is_table(mt) {
                return false;
            }
            match s.heap.table_meta(mt) {
                Some(c) => {
                    if !s.heap.is_table(c) || c == REGISTRY {
                        return false;
                    }
                },
                None => {},
            }
            proof {
                lemma_ready_when_registered::<U>(s@, mt);
            }
            true
        },
        _ => false,
    }
}

/// Pushes the metatable of the host type `U` and its cache.
fn push_cache<U: UserData>(s: &mut State)
    requires
        old(s).wf(),
        old(s)@.has_room(OBJECT_ROOM as int),
        spec_type_ready::<U>(old(s)@),
    ensures
        final(s)@ == spec_with_cache::<U>(old(s)@),
        final(s)@.top() == old(s)@.top() + 2,
        final(s)@.table_at(-1).is_some(),
        final(s)@.table_at(-2).is_some(),
        final(s).wf(),
{
    let ghost pre = s@;
    s.get_or_init_metatable::<U>();
    if !s.get_metatable(-1) {
        s.new_table();
        s.push_value(-1);
        s.set_metatable(-3);
        if U::policy().weak_ref_cache {
            get_weak_meta(s);
            s.set_metatable(-2);
        }
    }
}

/// Asks the cache of the host type `U` for the host address `key`.
/// Returns whether the cache holds an opaque object for it, which is then
/// pushed; otherwise the type's metatable, the cache and the key are
/// pushed, for `cache_userdata` to use once the object is made.
pub fn get_cached<U: UserData>(s: &mut State, key: usize) -> (hit: bool)
    requires
        old(s).wf(),
        old(s)@.has_room(OBJECT_ROOM as int),
        spec_type_ready::<U>(old(s)@),
    ensures
        final(s)@ == spec_get_cached::<U>(old(s)@, key),
        hit == (spec_cached::<U>(old(s)@, key) is Userdata),
        hit ==> final(s)@.stack == old(s)@.stack.push(spec_cached::<U>(old(s)@, key)),
        !hit ==> final(s)@.top() == old(s)@.top() + 3 && final(s)@.table_at(-2).is_some()
            && final(s)@.peek(0) == Slot::LightUserdata(key),
        final(s).wf(),
{
    let ghost pre = s@;
    push_cache::<U>(s);
    let ghost c = s@;
    s.push_light_userdata(key);
    let t = s.raw_get(-2);
    if matches!(t, Type::Userdata) {
        s.replace(-3);
        s.pop(1);
        proof {
            assert(s@.stack =~= pre.stack.push(spec_cached::<U>(pre, key)));
        }
        true
    } else {
        s.pop(1);
        s.push_light_userdata(key);
        proof {
            assert(s@.stack =~= c.stack.push(Slot::LightUserdata(key)));
        }
        false
    }
}

/// The context after the opaque object on top of the stack is kept in the
/// cache: below it lie the key, the cache and the type's metatable, which
/// are consumed; the object is left on top.
pub open spec fn spec_cache_userdata(pre: StateView) -> StateView {
    let c = spec_table_of(pre.peek(2)).unwrap();
    pre.stored(c, pre.peek(1), pre.peek(0)).with_stack(
        pre.stack.subrange(0, pre.top() - 4).push(pre.peek(0)),
    )
}

/// Keeps the opaque object on top of the stack in the cache under the key
/// that `get_cached` left below it.
pub fn cache_userdata(s: &mut State, key: usize)
    requires
        old(s).wf(),
        old(s)@.top() >= 4,
        old(s)@.has_room(1),
        old(s)@.table_at(-3).is_some(),
        old(s)@.peek(1) == Slot::LightUserdata(key),
    ensures
        final(s)@ == spec_cache_userdata(old(s)@),
        final(s).wf(),
{
    let ghost pre = s@;
    // meta | cache | key | object
    s.push_value(-1);
    s.replace(-5);
    // a raw address is a key that every table takes
    let _ = s.raw_set(-3);
    s.pop(1);
    proof {
        assert(s@.stack =~= pre.stack.subrange(0, pre.top() - 4).push(pre.peek(0)));
    }
}

impl StateView {
    /// The context after the value `v` is attached to the opaque object
    /// `u`.
    pub open spec fn with_uservalue(self, u: usize, v: Slot) -> StateView {
        self.with_heap(
            self.heap.with_userdata(u, Userdata { uservalue: v, ..self.heap.userdata[u as int] }),
        )
    }
}

/// The context after the opaque object on top of the stack is prepared
/// for the host type `U`: a new table is attached to it where the policy
/// asks for attached tables.
pub open spec fn spec_init_userdata<U: UserData>(pre: StateView) -> StateView {
    if U::spec_policy().index_uservalue {
        pre.with_heap(pre.heap.with_new_table()).with_uservalue(
            pre.userdata_at(-1).unwrap(),
            Slot::Table(pre.heap.tables.len() as usize),
        )
    } else {
        pre
    }
}

/// Prepares the opaque object on top of the stack for the host type `U`.
pub fn init_userdata<U: UserData>(s: &mut State)
    requires
        old(s).wf(),
        old(s)@.has_room(1),
        old(s)@.userdata_at(-1).is_some(),
    ensures
        final(s)@ == spec_init_userdata::<U>(old(s)@),
        final(s)@.stack == old(s)@.stack,
        final(s).wf(),
{
    if U::policy().index_uservalue {
        s.new_table();
        s.set_uservalue(-2);
        proof {
            assert(s@.stack =~= old(s)@.stack);
        }
    }
}

/// Takes the opaque object for the host address `key` out of the cache of
/// the host type `U`. The stack is left as it was.
pub fn clear_cached<U: UserData>(s: &mut State, key: usize)
    requires
        old(s).wf(),
        old(s)@.has_room(OBJECT_ROOM as int),
        spec_type_ready::<U>(old(s)@),
        spec_with_metatable::<U>(old(s)@).meta_at(-1).is_some(),
    ensures
        final(s)@ == spec_with_cache::<U>(old(s)@).stored(
            spec_table_of(spec_with_cache::<U>(old(s)@).peek(0)).unwrap(),
            Slot::LightUserdata(key),
            Slot::Nil,
        ).with_stack(old(s)@.stack),
        final(s).wf(),
{
    let ghost pre = s@;
    s.get_or_init_metatable::<U>();
    let _ = s.get_metatable(-1);
    s.push_light_userdata(key);
    s.push_nil();
    let _ = s.raw_set(-3);
    s.pop(2);
    proof {
        assert(s@.stack =~= pre.stack);
    }
}

/// The metatable of a host type is pushed as one more cell; it is what
/// the registry then holds for the type, and the heap is only extended.
pub proof fn lemma_with_metatable<U: UserData>(pre: StateView)
    requires
        pre.heap.tables.len() >= 1,
    ensures
        spec_with_metatable::<U>(pre).stack == pre.stack.push(
            spec_with_metatable::<U>(pre).peek(0),
        ),
        spec_with_metatable::<U>(pre).registered(U::spec_entries().init)
            == spec_with_metatable::<U>(pre).peek(0),
        spec_with_metatable::<U>(pre).peek(0) != Slot::Nil,
        spec_with_metatable::<U>(pre).extends_heap_of(pre),
        pre.registered(U::spec_entries().init) != Slot::Nil ==> spec_with_metatable::<U>(pre)
            == pre.pushed(pre.registered(U::spec_entries().init)),
{
    let key = U::spec_entries().init;
    let found = pre.registered(key);
    lemma_heap_extends(pre.heap, pre.heap);
    if found == Slot::Nil {
        let p00 = pre.pushed(Slot::Nil);
        lemma_pushed_slot(pre, Slot::Nil);
        lemma_pushed_table(p00);
        let p0 = p00.pushed_table();
        let t = pre.heap.tables.len() as usize;
        crate::userdata::lemma_init_metatable::<U>(p0, p0.top());
        let s1 = crate::userdata::spec_init_metatable::<U>(p0, p0.top());
        lemma_intern_extends(s1.heap, "__name".spec_bytes());
        let s2 = s1.interned("__name".spec_bytes());
        let name = s2.lookup(t, s1.str_key("__name".spec_bytes()));
        let s3 = if name is Str {
            s2.stored(REGISTRY, name, Slot::Table(t))
        } else {
            s2
        };
        if name is Str {
            lemma_stored(s2, REGISTRY, name, Slot::Table(t));
        } else {
            lemma_heap_extends(s2.heap, s2.heap);
        }
        lemma_stored(s3, REGISTRY, Slot::LightUserdata(key), Slot::Table(t));
        let fin = crate::userdata::spec_new_metatable::<U>(pre);
        lemma_heap_extends_trans(pre.heap, p0.heap, s1.heap);
        lemma_heap_extends_trans(pre.heap, s1.heap, s2.heap);
        lemma_heap_extends_trans(pre.heap, s2.heap, s3.heap);
        lemma_heap_extends_trans(pre.heap, s3.heap, fin.heap);
        assert(fin.stack =~= pre.stack.push(fin.peek(0)));
    } else {
        assert(pre.pushed(found).stack =~= pre.stack.push(found));
    }
}

/// Whether, in the context `s`, `mt` is the metatable that the registry
/// holds for the host type `U` and `c` is its cache.
pub open spec fn spec_linked<U: UserData>(s: StateView, mt: usize, c: usize) -> bool {
    &&& s.registered(U::spec_entries().init) == Slot::Table(mt)
    &&& mt < s.heap.tables.len()
    &&& s.heap.table_meta(mt) == Some(c)
    &&& c < s.heap.tables.len()
    &&& c != REGISTRY
}

/// Giving a table a metatable changes no binding of any table and no
/// other metatable.
pub proof fn lemma_with_table_meta(s: StateView, t: usize, meta: Option<usize>)
    requires
        t < s.heap.tables.len(),
    ensures
        s.with_meta(Slot::Table(t), meta).stack == s.stack,
        s.with_meta(Slot::Table(t), meta).extends_heap_of(s),
        s.with_meta(Slot::Table(t), meta).heap.tables.len() == s.heap.tables.len(),
        s.with_meta(Slot::Table(t), meta).heap.userdata == s.heap.userdata,
        s.with_meta(Slot::Table(t), meta).heap.table_meta(t) == meta,
        forall|t2: usize, k: Slot| #[trigger]
            s.with_meta(Slot::Table(t), meta).lookup(t2, k) == s.lookup(t2, k),
        forall|t2: usize|
            t2 != t ==> #[trigger] s.with_meta(Slot::Table(t), meta).heap.table_meta(t2)
                == s.heap.table_meta(t2),
{
    let r = s.with_meta(Slot::Table(t), meta);
    lemma_heap_extends(s.heap, r.heap);
    assert forall|t2: usize, k: Slot| #[trigger] r.lookup(t2, k) == s.lookup(t2, k) by {}
}

/// After the metatable of a host type and its cache are pushed, the two
/// are linked: the registry holds the metatable for the type, and the
/// cache is the metatable's metatable.
pub proof fn lemma_with_cache<U: UserData>(pre: StateView)
    requires
        pre.heap.tables.len() >= 1,
        spec_type_ready::<U>(pre),
    ensures
        ({
            let c = spec_with_cache::<U>(pre);
            let m = spec_with_metatable::<U>(pre);
            &&& c.stack == pre.stack.push(m.peek(0)).push(c.peek(0))
            &&& m.peek(0) is Table
            &&& c.peek(0) is Table
            &&& spec_linked::<U>(
                c,
                spec_table_of(m.peek(0)).unwrap(),
                spec_table_of(c.peek(0)).unwrap(),
            )
            &&& c.extends_heap_of(pre)
            &&& c.heap.userdata == m.heap.userdata
            &&& c.heap.tables.len() <= m.heap.tables.len() + 2
            &&& m.meta_at(-1).is_some() ==> c.heap == m.heap
            &&& m.meta_at(-1).is_none() ==> forall|k: Slot|
                c.lookup(spec_table_of(c.peek(0)).unwrap(), k) == Slot::Nil
        }),
{
    let init = U::spec_entries().init;
    lemma_with_metatable::<U>(pre);
    let m = spec_with_metatable::<U>(pre);
    let mt = m.table_at(-1).unwrap();
    assert(m.peek(0) == Slot::Table(mt));
    match m.meta_at(-1) {
        Some(c) => {
            assert(m.pushed(Slot::Table(c)).stack =~= pre.stack.push(m.peek(0)).push(
                Slot::Table(c),
            ));
        },
        None => {
            let c = m.heap.tables.len() as usize;
            lemma_pushed_table(m);
            let a0 = m.pushed_table().pushed(Slot::Table(c));
            lemma_with_table_meta(a0, mt, Some(c));
            let a = a0.with_meta(m.peek(0), Some(c)).popped(1);
            assert(a.stack =~= pre.stack.push(m.peek(0)).push(Slot::Table(c)));
            lemma_heap_extends_trans(pre.heap, m.heap, a0.heap);
            lemma_heap_extends_trans(pre.heap, a0.heap, a.heap);
            assert(a.registered(init) == m.registered(init));
            assert forall|k: Slot| a.lookup(c, k) == Slot::Nil by {
                assert(a0.heap.tables[c as int] == crate::table::TableView::empty());
            }
            if U::spec_policy().weak_ref_cache {
                lemma_weak_meta(a);
                let w = spec_weak_meta(a);
                lemma_with_table_meta(w, c, spec_table_of(w.peek(0)));
                let fin = w.with_meta(Slot::Table(c), spec_table_of(w.peek(0))).popped(1);
                assert(fin.stack =~= a.stack);
                lemma_heap_extends_trans(pre.heap, a.heap, w.heap);
                lemma_heap_extends_trans(pre.heap, w.heap, fin.heap);
                assert(w.registered(init) == a.registered(init));
                assert(w.heap.table_meta(mt) == a.heap.table_meta(mt));
                assert(fin.registered(init) == w.registered(init));
                assert(fin.heap.table_meta(mt) == w.heap.table_meta(mt));
                assert forall|k: Slot| fin.lookup(c, k) == Slot::Nil by {
                    assert(w.lookup(c, k) == a.lookup(c, k));
                    assert(fin.lookup(c, k) == w.lookup(c, k));
                }
                assert(fin.heap.userdata =~= m.heap.userdata) by {
                    assert forall|u: int| 0 <= u < m.heap.userdata.len() implies fin.heap.userdata[u]
                        == m.heap.userdata[u] by {
                        assert(w.heap.get_userdata(u as usize) == a.heap.get_userdata(u as usize));
                    }
                    assert(w.heap.get_userdata(m.heap.userdata.len() as usize)
                        == a.heap.get_userdata(m.heap.userdata.len() as usize));
                }
            }
        },
    }
}

/// The size of the block of an opaque object of the host type `U`: the
/// size of the value, and in pointer mode that of the indirection in
/// front of it.
pub open spec fn spec_block_size<U: UserData>() -> usize {
    let ptr: int = crate::function::spec_pointer_size() as int;
    if !U::spec_policy().is_pointer {
        U::spec_size()
    } else if U::spec_size() + ptr <= usize::MAX {
        (U::spec_size() + ptr) as usize
    } else {
        usize::MAX
    }
}

/// The record of a new opaque object of the host type `U` for the host
/// value at `addr`: an object that owns the value holds it in its own
/// block; one that does not holds an indirection only.
pub open spec fn spec_record<U: UserData>(addr: usize, owned: bool) -> Userdata {
    Userdata {
        meta: None,
        size: if owned {
            spec_block_size::<U>()
        } else {
            crate::function::spec_pointer_size()
        },
        target: addr,
        inline: if owned {
            Some(addr)
        } else {
            None
        },
        uservalue: Slot::Nil,
    }
}

/// The size of the block of a new opaque object for a host value of
/// `size` bytes: an object that does not own the value holds a pointer to
/// it; one that owns it holds the value, and in pointer mode an
/// indirection in front of it.
pub open spec fn spec_block(is_pointer: bool, size: usize, owned: bool) -> usize {
    let ptr: int = crate::function::spec_pointer_size() as int;
    if !owned {
        crate::function::spec_pointer_size()
    } else if !is_pointer {
        size
    } else if size + ptr <= usize::MAX {
        (size + ptr) as usize
    } else {
        usize::MAX
    }
}

/// The size of the block of a new opaque object for a host value of
/// `size` bytes.
pub fn block_size(is_pointer: bool, size: usize, owned: bool) -> (r: usize)
    ensures
        r == spec_block(is_pointer, size, owned),
{
    let ptr: usize = if usize::BITS == 32 {
        4
    } else {
        8
    };
    if !owned {
        ptr
    } else if !is_pointer {
        size
    } else if size <= usize::MAX - ptr {
        size + ptr
    } else {
        usize::MAX
    }
}

/// How a host object is exposed.
#[derive(Clone, Copy, Debug, PartialEq, Eq, Structural)]
pub enum Exposure {
    /// The identity cache holds an object for the key: it is pushed as it
    /// is.
    Reuse,
    /// A new object is made, and kept in the identity cache if `cache` is
    /// set.
    Make { cache: bool },
}

/// How a host object is exposed under the cache key `key` (0 for no
/// caching), where the identity cache binds a value of the type `cached`
/// to the key.
pub open spec fn spec_exposure(key: usize, cached: Type) -> Exposure {
    if key != 0 && cached == Type::Userdata {
        Exposure::Reuse
    } else {
        Exposure::Make { cache: key != 0 }
    }
}

/// How a host object is exposed under the cache key `key`, where the
/// identity cache binds a value of the type `cached` to the key.
pub fn exposure(key: usize, cached: Type) -> (r: Exposure)
    ensures
        r == spec_exposure(key, cached),
{
    if key != 0 && matches!(cached, Type::Userdata) {
        Exposure::Reuse
    } else {
        Exposure::Make { cache: key != 0 }
    }
}

/// Exposing a host object reuses what the cache holds exactly where that
/// is the way to expose it; a new object has the size that its block is
/// to have.
pub proof fn lemma_exposure<U: UserData>(pre: StateView, key: usize, addr: usize, owned: bool)
    ensures
        spec_exposure(key, spec_cached::<U>(pre, key).spec_type_of()) is Reuse ==> spec_exposed::<
            U,
        >(pre, key, addr, owned) == spec_get_cached::<U>(pre, key),
        spec_exposure(key, spec_cached::<U>(pre, key).spec_type_of()) is Reuse <==> key != 0
            && spec_cached::<U>(pre, key) is Userdata,
        spec_record::<U>(addr, owned).size == spec_block(
            U::spec_policy().is_pointer,
            U::spec_size(),
            owned,
        ),
{
}

/// The context after a host object of the type `U` is exposed: `key` is
/// the address under which it is kept in the identity cache (0 for no
/// caching) and `addr` the address of the host value.
///
/// With caching, an object that the cache holds for the key is pushed as
/// it is. Otherwise a new opaque object is made for the host value, gets
/// the type's metatable and, where the policy asks for it, an attached
/// table, and is kept in the cache where there is a key.
pub open spec fn spec_exposed<U: UserData>(
    pre: StateView,
    key: usize,
    addr: usize,
    owned: bool,
) -> StateView {
    if key != 0 && spec_cached::<U>(pre, key) is Userdata {
        spec_get_cached::<U>(pre, key)
    } else {
        let base = if key != 0 {
            spec_get_cached::<U>(pre, key)
        } else {
            spec_with_metatable::<U>(pre).popped(1)
        };
        let s1 = base.with_heap(base.heap.with_new_userdata(spec_record::<U>(addr, owned))).pushed(
            Slot::Userdata(base.heap.userdata.len() as usize),
        );
        let m = spec_with_metatable::<U>(s1);
        let s2 = m.with_meta(s1.peek(0), spec_table_of(m.peek(0))).popped(1);
        let s3 = spec_init_userdata::<U>(s2);
        if key != 0 {
            spec_cache_userdata(s3)
        } else {
            s3
        }
    }
}

/// Whether, in the context `s`, the cache of the host type `U` binds the
/// host address `key` to the value `v`.
pub open spec fn spec_bound<U: UserData>(s: StateView, key: usize, v: Slot) -> bool {
    exists|mt: usize, c: usize| #[trigger]
        spec_linked::<U>(s, mt, c) && s.lookup(c, Slot::LightUserdata(key)) == v
}

/// The tables of `a` are tables of `b`, unchanged.
pub open spec fn spec_same_tables(a: StateView, b: StateView) -> bool {
    &&& a.heap.tables.len() <= b.heap.tables.len()
    &&& forall|t: int| 0 <= t < a.heap.tables.len() ==> b.heap.tables[t] == a.heap.tables[t]
}

/// What a new opaque object gets before it is kept in the cache leaves
/// every table as it was.
proof fn lemma_object_made<U: UserData>(base: StateView, addr: usize, owned: bool)
    requires
        base.heap.tables.len() >= 1,
        base.heap.tables.len() < usize::MAX,
        base.heap.userdata.len() < usize::MAX,
        base.registered(U::spec_entries().init) is Table,
    ensures
        ({
            let n = base.heap.userdata.len() as usize;
            let s1 = base.with_heap(base.heap.with_new_userdata(spec_record::<U>(addr, owned))).pushed(
                Slot::Userdata(n),
            );
            let m = spec_with_metatable::<U>(s1);
            let s2 = m.with_meta(s1.peek(0), spec_table_of(m.peek(0))).popped(1);
            let s3 = spec_init_userdata::<U>(s2);
            &&& m == s1.pushed(base.registered(U::spec_entries().init))
            &&& s3.stack == base.stack.push(Slot::Userdata(n))
            &&& spec_same_tables(base, s3)
            &&& s3.heap.tables.len() <= base.heap.tables.len() + 1
            &&& s3.heap.userdata.len() == n + 1
            &&& s3.heap.strings == base.heap.strings
            &&& s3.heap.closures == base.heap.closures
            &&& s3.heap.threads == base.heap.threads
            &&& s3.upvalues == base.upvalues
            &&& s3.thread == base.thread
            &&& s3.heap.userdata[n as int].target == addr
            &&& s3.heap.userdata[n as int].meta == spec_table_of(
                base.registered(U::spec_entries().init),
            )
            &&& s3.heap.userdata.subrange(0, n as int) == base.heap.userdata
        }),
{
    let n = base.heap.userdata.len() as usize;
    let s1 = base.with_heap(base.heap.with_new_userdata(spec_record::<U>(addr, owned))).pushed(
        Slot::Userdata(n),
    );
    assert(s1.registered(U::spec_entries().init) == base.registered(U::spec_entries().init));
    let m = spec_with_metatable::<U>(s1);
    let s2 = m.with_meta(s1.peek(0), spec_table_of(m.peek(0))).popped(1);
    assert(s2.stack =~= base.stack.push(Slot::Userdata(n)));
    let s3 = spec_init_userdata::<U>(s2);
    assert(s3.heap.userdata.subrange(0, n as int) =~= base.heap.userdata);
}

/// Exposing a host object pushes one cell, which holds an opaque object,
/// and only extends the context. With caching, the cache binds the
/// object's address to what was pushed, so that the object is found when
/// the address is exposed again; without caching, a new opaque object is
/// made.
pub proof fn lemma_exposed<U: UserData>(
    pre: StateView,
    key: usize,
    addr: usize,
    owned: bool,
    n: int,
)
    requires
        n >= 1,
        spec_type_ready_for::<U>(pre, n),
        pre.heap.tables.len() >= 1,
    ensures
        ({
            let fin = spec_exposed::<U>(pre, key, addr, owned);
            let m = spec_with_metatable::<U>(pre);
            &&& fin.stack == pre.stack.push(fin.peek(0))
            &&& fin.peek(0) is Userdata
            &&& fin.extends_heap_of(pre)
            &&& spec_type_ready_for::<U>(fin, n - 1)
            &&& fin.heap.tables.len() >= 1
            &&& key != 0 ==> spec_bound::<U>(fin, key, fin.peek(0))
            &&& key != 0 && spec_cached::<U>(pre, key) is Userdata ==> fin.peek(0)
                == spec_cached::<U>(pre, key)
            &&& !(key != 0 && spec_cached::<U>(pre, key) is Userdata) ==> {
                &&& fin.peek(0) == Slot::Userdata(m.heap.userdata.len() as usize)
                &&& fin.heap.userdata.len() == m.heap.userdata.len() + 1
                &&& fin.heap.userdata[m.heap.userdata.len() as int].target == addr
            }
            &&& fin.heap.userdata.len() >= m.heap.userdata.len()
        }),
{
    let init = U::spec_entries().init;
    lemma_with_metatable::<U>(pre);
    let m = spec_with_metatable::<U>(pre);
    let mt = m.table_at(-1).unwrap();
    let fin = spec_exposed::<U>(pre, key, addr, owned);
    if key != 0 {
        assert(spec_type_ready::<U>(pre));
        lemma_with_cache::<U>(pre);
        let c = spec_with_cache::<U>(pre);
        let cc = spec_table_of(c.peek(0)).unwrap();
        assert(spec_linked::<U>(c, mt, cc));
        let found = spec_cached::<U>(pre, key);
        if found is Userdata {
            assert(fin.heap == c.heap);
            assert(spec_linked::<U>(fin, mt, cc));
            lemma_with_metatable::<U>(fin);
            assert(spec_with_metatable::<U>(fin) == fin.pushed(Slot::Table(mt)));
        } else {
            let base = c.pushed(Slot::LightUserdata(key));
            lemma_object_made::<U>(base, addr, owned);
            let k = base.heap.userdata.len() as usize;
            let s1 = base.with_heap(base.heap.with_new_userdata(spec_record::<U>(addr, owned))).pushed(
                Slot::Userdata(k),
            );
            let m1 = spec_with_metatable::<U>(s1);
            let s2 = m1.with_meta(s1.peek(0), spec_table_of(m1.peek(0))).popped(1);
            let s3 = spec_init_userdata::<U>(s2);
            assert(s3.peek(2) == Slot::Table(cc));
            assert(s3.peek(1) == Slot::LightUserdata(key));
            assert(s3.peek(0) == Slot::Userdata(k));
            assert(s3.heap.tables[cc as int] == c.heap.tables[cc as int]);
            assert(s3.heap.tables[mt as int] == c.heap.tables[mt as int]);
            assert(s3.heap.tables[REGISTRY as int] == c.heap.tables[REGISTRY as int]);
            lemma_stored(s3, cc, Slot::LightUserdata(key), Slot::Userdata(k));
            assert(fin.stack =~= pre.stack.push(Slot::Userdata(k)));
            assert(fin.registered(init) == s3.registered(init));
            assert(fin.meta_of(Slot::Table(mt)) == s3.meta_of(Slot::Table(mt)));
            assert(spec_linked::<U>(fin, mt, cc));
            lemma_heap_extends(c.heap, fin.heap);
            lemma_heap_extends_trans(pre.heap, c.heap, fin.heap);
            lemma_with_metatable::<U>(fin);
            assert(spec_with_metatable::<U>(fin) == fin.pushed(Slot::Table(mt)));
        }
    } else {
        let base = m.popped(1);
        assert(base.stack =~= pre.stack);
        assert(base.registered(init) == m.registered(init));
        lemma_object_made::<U>(base, addr, owned);
        let k = base.heap.userdata.len() as usize;
        assert(fin.registered(init) == base.registered(init)) by {
            assert(fin.heap.tables[REGISTRY as int] == base.heap.tables[REGISTRY as int]);
        }
        assert(fin.heap.tables[mt as int] == m.heap.tables[mt as int]);
        lemma_heap_extends(m.heap, fin.heap);
        lemma_heap_extends_trans(pre.heap, m.heap, fin.heap);
        lemma_with_metatable::<U>(fin);
        assert(spec_with_metatable::<U>(fin) == fin.pushed(Slot::Table(mt)));
    }
}

/// Exposes a host object of the type `U`: `key` is the address under
/// which it is kept in the identity cache (0 for no caching), `addr` the
/// address of the host value, and `owned` says whether the interpreter
/// takes the value over or only refers to it.
pub fn expose<U: UserData>(s: &mut State, key: usize, addr: usize, owned: bool)
    requires
        old(s).wf(),
        old(s)@.has_room(OBJECT_ROOM as int),
        spec_type_ready::<U>(old(s)@),
    ensures
        final(s)@ == spec_exposed::<U>(old(s)@, key, addr, owned),
        final(s)@.stack == old(s)@.stack.push(final(s)@.peek(0)),
        final(s)@.peek(0) is Userdata,
        key != 0 ==> spec_bound::<U>(final(s)@, key, final(s)@.peek(0)),
        final(s).wf(),
{
    let ghost pre = s@;
    proof {
        lemma_exposed::<U>(pre, key, addr, owned, 1);
        lemma_with_metatable::<U>(pre);
        if key != 0 {
            lemma_with_cache::<U>(pre);
        }
    }
    if key != 0 {
        if get_cached::<U>(s, key) {
            return;
        }
    } else {
        s.register_usertype::<U>();
    }
    let ghost base = s@;
    proof {
        lemma_object_made::<U>(base, addr, owned);
    }
    let block = block_size(U::policy().is_pointer, U::size(), owned);
    let inline = if owned {
        Some(addr)
    } else {
        None
    };
    s.new_userdata(
        Userdata { meta: None, size: block, target: addr, inline, uservalue: Slot::Nil },
    );
    s.set_or_init_metatable::<U>();
    init_userdata::<U>(s);
    if key != 0 {
        cache_userdata(s, key);
    }
}

/// Identity with caching: exposing the same host address twice pushes the
/// same opaque object twice, and the second time nothing is made or
/// changed.
pub proof fn lemma_same_identity<U: UserData>(
    pre: StateView,
    key: usize,
    a1: usize,
    a2: usize,
    owned: bool,
)
    requires
        key != 0,
        pre.heap.tables.len() >= 1,
        spec_type_ready_for::<U>(pre, 2),
    ensures
        ({
            let first = spec_exposed::<U>(pre, key, a1, owned);
            let second = spec_exposed::<U>(first, key, a2, owned);
            &&& second.stack == pre.stack.push(first.peek(0)).push(first.peek(0))
            &&& second.peek(0) == first.peek(0)
            &&& second.heap == first.heap
        }),
{
    lemma_exposed::<U>(pre, key, a1, owned, 2);
    let first = spec_exposed::<U>(pre, key, a1, owned);
    let v = first.peek(0);
    assert(spec_bound::<U>(first, key, v));
    let (mt, c) = choose|mt: usize, c: usize| #[trigger]
        spec_linked::<U>(first, mt, c) && first.lookup(c, Slot::LightUserdata(key)) == v;
    lemma_with_metatable::<U>(first);
    let m = spec_with_metatable::<U>(first);
    assert(m == first.pushed(Slot::Table(mt)));
    assert(m.meta_at(-1) == Some(c));
    let wc = spec_with_cache::<U>(first);
    assert(wc == m.pushed(Slot::Table(c)));
    assert(spec_cached::<U>(first, key) == v);
    let second = spec_exposed::<U>(first, key, a2, owned);
    assert(second.stack =~= first.stack.push(v));
}

/// Identity without caching: exposing twice makes two opaque objects,
/// which are not the same.
pub proof fn lemma_distinct_identity<U: UserData>(
    pre: StateView,
    a1: usize,
    a2: usize,
    owned: bool,
)
    requires
        pre.heap.tables.len() >= 1,
        spec_type_ready_for::<U>(pre, 2),
    ensures
        ({
            let first = spec_exposed::<U>(pre, 0, a1, owned);
            let second = spec_exposed::<U>(first, 0, a2, owned);
            &&& second.stack == pre.stack.push(first.peek(0)).push(second.peek(0))
            &&& second.peek(0) is Userdata
            &&& first.peek(0) is Userdata
            &&& second.peek(0) != first.peek(0)
        }),
{
    lemma_exposed::<U>(pre, 0, a1, owned, 2);
    let first = spec_exposed::<U>(pre, 0, a1, owned);
    lemma_exposed::<U>(first, 0, a2, owned, 1);
    lemma_with_metatable::<U>(first);
}

impl<U: UserData> ToLua for U {
    open spec fn spec_is_top() -> bool {
        false
    }

    open spec fn spec_pushable(&self, pre: StateView) -> bool {
        &&& spec_type_ready::<U>(pre)
        &&& pre.heap.tables.len() >= 1
        &&& pre.has_room(OBJECT_ROOM as int)
    }

    open spec fn spec_pushed(&self, pre: StateView) -> StateView {
        spec_exposed::<U>(pre, self.spec_key_to_cache(), self.spec_address(), true)
    }

    proof fn lemma_pushed(&self, pre: StateView) {
        lemma_exposed::<U>(pre, self.spec_key_to_cache(), self.spec_address(), true, 1);
        let fin = self.spec_pushed(pre);
        assert(fin.stack.subrange(0, pre.stack.len() as int) =~= pre.stack);
    }

    fn is_top() -> (b: bool) {
        false
    }

    fn to_lua(self, s: &mut State) {
        let key = self.key_to_cache();
        let addr = self.address();
        expose::<U>(s, key, addr, true);
    }
}

/// Two host values without a cache key, pushed in turn, give two opaque
/// objects: the stack is two cells higher, both cells hold opaque
/// objects, and the two are not equal as the interpreter sees it.
pub proof fn lemma_two_handles<U: UserData>(pre: StateView, x: U, y: U)
    requires
        x.spec_key_to_cache() == 0,
        y.spec_key_to_cache() == 0,
        pre.heap.tables.len() >= 1,
        spec_type_ready_for::<U>(pre, 2),
    ensures
        ({
            let fin = y.spec_pushed(x.spec_pushed(pre));
            &&& fin.top() == pre.top() + 2
            &&& fin.type_at(-1) == Type::Userdata
            &&& fin.type_at(-2) == Type::Userdata
            &&& !crate::state::spec_raw_equal(fin.value_at(-1), fin.value_at(-2))
        }),
{
    lemma_distinct_identity::<U>(pre, x.spec_address(), y.spec_address(), true);
    let first = spec_exposed::<U>(pre, 0, x.spec_address(), true);
    let fin = spec_exposed::<U>(first, 0, y.spec_address(), true);
    assert(fin.stack == pre.stack.push(first.peek(0)).push(fin.peek(0)));
    assert(fin.slot_at(-1) == Some(fin.peek(0)));
    assert(fin.slot_at(-2) == Some(first.peek(0)));
}

/// The context after a reference to a host object of the type `U` is
/// exposed: nil for a null reference, and otherwise an opaque object that
/// holds an indirection to the object.
pub open spec fn spec_exposed_pointer<U: UserData>(
    pre: StateView,
    target: Option<(usize, usize)>,
) -> StateView {
    match target {
        Some((key, addr)) => spec_exposed::<U>(pre, key, addr, false),
        None => pre.pushed(Slot::Nil),
    }
}

/// Exposes a reference to a host object of the type `U`, which must be a
/// type in pointer mode.
pub fn expose_pointer<U: UserData>(s: &mut State, target: Option<(usize, usize)>)
    requires
        old(s).wf(),
        old(s)@.has_room(OBJECT_ROOM as int),
        U::spec_policy().is_pointer,
        target.is_some() ==> spec_type_ready::<U>(old(s)@),
    ensures
        final(s)@ == spec_exposed_pointer::<U>(old(s)@, target),
        final(s)@.stack == old(s)@.stack.push(final(s)@.peek(0)),
        final(s).wf(),
{
    match target {
        Some((key, addr)) => expose::<U>(s, key, addr, false),
        None => {
            s.push_nil();
        },
    }
}

/// The host address of an opaque object of the host type `U`, as read
/// from the stack. The host finds its value there.
pub struct UserRef<U> {
    /// The host address that the object stands for.
    pub address: usize,
    pub marker: core::marker::PhantomData<U>,
}

impl<U> DeepView for UserRef<U> {
    type V = usize;

    open spec fn deep_view(&self) -> usize {
        self.address
    }
}

/// The host address of the opaque object at `i`, if it is one of the host
/// type `U`.
pub open spec fn spec_user_ref<U: UserData>(s: StateView, i: int) -> Option<usize> {
    match s.userdata_at(i) {
        Some(u) => if State::spec_is_instance(s, Slot::Userdata(u), U::spec_entries().init) {
            Some(s.heap.userdata[u as int].target)
        } else {
            None
        },
        None => None,
    }
}

impl<U: UserData> crate::convert::FromLua for UserRef<U> {
    open spec fn spec_tname() -> Seq<u8> {
        U::spec_tname()
    }

    open spec fn spec_from_lua(s: StateView, i: int) -> Option<usize> {
        spec_user_ref::<U>(s, i)
    }

    fn tname() -> (n: Vec<u8>) {
        U::tname()
    }

    fn from_lua(s: &State, i: crate::stack::Index) -> (r: Option<Self>) {
        match s.test_userdata_meta_(i, U::entries().init) {
            Some(a) => Some(UserRef { address: a, marker: core::marker::PhantomData }),
            None => None,
        }
    }
}

/// What was exposed reads back: the opaque object that exposing a host
/// value pushes is an object of the value's type, and reading it gives
/// the address of the host value where the object was made for it.
pub proof fn lemma_exposed_reads_back<U: UserData>(
    pre: StateView,
    key: usize,
    addr: usize,
    owned: bool,
)
    requires
        pre.heap.tables.len() >= 1,
        spec_type_ready::<U>(pre),
        !(key != 0 && spec_cached::<U>(pre, key) is Userdata),
    ensures
        spec_user_ref::<U>(spec_exposed::<U>(pre, key, addr, owned), -1) == Some(addr),
{
    let init = U::spec_entries().init;
    lemma_with_metatable::<U>(pre);
    lemma_exposed::<U>(pre, key, addr, owned, 1);
    let m = spec_with_metatable::<U>(pre);
    let mt = m.table_at(-1).unwrap();
    let fin = spec_exposed::<U>(pre, key, addr, owned);
    if key != 0 {
        lemma_with_cache::<U>(pre);
        let c = spec_with_cache::<U>(pre);
        let cc = spec_table_of(c.peek(0)).unwrap();
        let base = c.pushed(Slot::LightUserdata(key));
        lemma_object_made::<U>(base, addr, owned);
        let k = base.heap.userdata.len() as usize;
        let s1 = base.with_heap(
            base.heap.with_new_userdata(spec_record::<U>(addr, owned)),
        ).pushed(Slot::Userdata(k));
        let m1 = spec_with_metatable::<U>(s1);
        let s2 = m1.with_meta(s1.peek(0), spec_table_of(m1.peek(0))).popped(1);
        let s3 = spec_init_userdata::<U>(s2);
        assert(s3.heap.tables[REGISTRY as int] == c.heap.tables[REGISTRY as int]);
        lemma_stored(s3, cc, Slot::LightUserdata(key), Slot::Userdata(k));
        assert(fin.registered(init) == s3.registered(init));
        assert(fin.heap.userdata == s3.heap.userdata);
    } else {
        let base = m.popped(1);
        assert(base.registered(init) == m.registered(init));
        lemma_object_made::<U>(base, addr, owned);
        assert(fin.heap.tables[REGISTRY as int] == base.heap.tables[REGISTRY as int]);
    }
}

/// A host value that is pushed as a plain opaque object: it gets the
/// metatable of its type if the flag says so, and nothing else; it is not
/// looked up in the identity cache, nor kept there.
pub struct UserDataWrapper<U>(pub U, pub bool);

/// The context after a plain opaque object is pushed for the host value
/// at `addr`, with the metatable of the host type `U` if `with_meta`
/// says so.
pub open spec fn spec_wrapped<U: UserData>(pre: StateView, addr: usize, with_meta: bool)
    -> StateView {
    let s1 = pre.with_heap(pre.heap.with_new_userdata(spec_record::<U>(addr, true))).pushed(
        Slot::Userdata(pre.heap.userdata.len() as usize),
    );
    if with_meta {
        let m = spec_with_metatable::<U>(s1);
        m.with_meta(s1.peek(0), spec_table_of(m.peek(0))).popped(1)
    } else {
        s1
    }
}

/// A plain opaque object is pushed as one more cell, and the context is
/// only extended.
pub proof fn lemma_wrapped<U: UserData>(pre: StateView, addr: usize, with_meta: bool)
    requires
        pre.heap.tables.len() >= 1,
        pre.heap.userdata.len() <= usize::MAX,
    ensures
        spec_wrapped::<U>(pre, addr, with_meta).extends(pre),
        spec_wrapped::<U>(pre, addr, with_meta).top() == pre.top() + 1,
        spec_wrapped::<U>(pre, addr, with_meta).userdata_at(-1) == Some(
            pre.heap.userdata.len() as usize,
        ),
{
    let n = pre.heap.userdata.len() as usize;
    let s1 = pre.with_heap(pre.heap.with_new_userdata(spec_record::<U>(addr, true))).pushed(
        Slot::Userdata(n),
    );
    lemma_heap_extends(pre.heap, s1.heap);
    assert(s1.stack.subrange(0, pre.stack.len() as int) =~= pre.stack);
    if with_meta {
        lemma_with_metatable::<U>(s1);
        let m = spec_with_metatable::<U>(s1);
        let fin = m.with_meta(s1.peek(0), spec_table_of(m.peek(0))).popped(1);
        assert(m.heap.userdata.len() >= s1.heap.userdata.len());
        lemma_heap_extends(m.heap, fin.heap);
        lemma_heap_extends_trans(pre.heap, s1.heap, m.heap);
        lemma_heap_extends_trans(pre.heap, m.heap, fin.heap);
        assert(fin.stack =~= s1.stack);
        assert(fin.stack.subrange(0, pre.stack.len() as int) =~= pre.stack);
    }
}

impl<U: UserData> ToLua for UserDataWrapper<U> {
    open spec fn spec_is_top() -> bool {
        false
    }

    open spec fn spec_pushable(&self, pre: StateView) -> bool {
        &&& pre.heap.wf()
        &&& pre.has_room(OBJECT_ROOM as int)
        &&& self.1 ==> spec_with_metatable::<U>(
            pre.with_heap(
                pre.heap.with_new_userdata(spec_record::<U>(self.0.spec_address(), true)),
            ).pushed(Slot::Userdata(pre.heap.userdata.len() as usize)),
        ).peek(0) is Table
    }

    open spec fn spec_pushed(&self, pre: StateView) -> StateView {
        spec_wrapped::<U>(pre, self.0.spec_address(), self.1)
    }

    proof fn lemma_pushed(&self, pre: StateView) {
        lemma_wrapped::<U>(pre, self.0.spec_address(), self.1);
    }

    fn is_top() -> (b: bool) {
        false
    }

    fn to_lua(self, s: &mut State) {
        let addr = self.0.address();
        let size = U::size();
        let ptr: usize = if usize::BITS == 32 {
            4
        } else {
            8
        };
        let block = if !U::policy().is_pointer {
            size
        } else if size <= usize::MAX - ptr {
            size + ptr
        } else {
            usize::MAX
        };
        s.new_userdata(
            Userdata { meta: None, size: block, target: addr, inline: Some(addr), uservalue: Slot::Nil },
        );
        if self.1 {
            s.set_or_init_metatable::<U>();
        }
    }
}

} // verus!
