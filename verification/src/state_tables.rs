//! Table, metatable and opaque-object access of an execution context.
//!
//! The accesses named `raw_` are for tables only. Those without the
//! prefix take any value: on what is no table they give the error that
//! indexing it raises, and leave the stack as it was. Neither kind
//! consults a metamethod: to call one is to run the interpreter. A
//! floating point key that is exactly an integer stands for that integer,
//! and nil and NaN are refused as keys.

use vstd::prelude::*;
use vstd::string::StringSliceAdditionalSpecFns;
use crate::error::{Error, ErrorView};
use crate::heap::{Userdata, GLOBALS};
use crate::number::{is_nan, spec_is_nan, spec_to_integer, to_integer};
use crate::slot::Slot;
use crate::stack::{Index, MAX_UPVALUES};
use crate::state::{State, StateView};
use crate::status::Type;

verus! {

/// The key under which a table files `k`: a float that is exactly an
/// integer is filed as that integer.
pub open spec fn spec_key(k: Slot) -> Slot {
    match k {
        Slot::Num(b) => match spec_to_integer(b) {
            Some(i) => Slot::Int(i),
            None => k,
        },
        _ => k,
    }
}

/// Whether a table accepts `k` as a key: anything but nil and NaN.
pub open spec fn spec_key_ok(k: Slot) -> bool {
    match k {
        Slot::Nil => false,
        Slot::Num(b) => !spec_is_nan(b),
        _ => true,
    }
}

/// The error raised for a key that a table refuses.
pub open spec fn spec_key_error(k: Slot) -> ErrorView {
    if k == Slot::Nil {
        ErrorView::Runtime("table index is nil".spec_bytes())
    } else {
        ErrorView::Runtime("table index is NaN".spec_bytes())
    }
}

/// The key under which a table files `k`.
pub fn normalize_key(k: Slot) -> (r: Slot)
    ensures
        r == spec_key(k),
{
    match k {
        Slot::Num(b) => match to_integer(b) {
            Some(i) => Slot::Int(i),
            None => k,
        },
        _ => k,
    }
}

/// Checks that a table accepts `k` as a key.
pub fn check_key(k: Slot) -> (r: Result<(), Error>)
    ensures
        match r {
            Ok(()) => spec_key_ok(k),
            Err(e) => !spec_key_ok(k) && e@ == spec_key_error(k),
        },
{
    match k {
        Slot::Nil => Err(Error::runtime("table index is nil")),
        Slot::Num(b) => if is_nan(b) {
            Err(Error::runtime("table index is NaN"))
        } else {
            Ok(())
        },
        _ => Ok(()),
    }
}

impl StateView {
    /// The handle of the table that `idx` refers to, if it refers to one.
    pub open spec fn table_at(self, idx: int) -> Option<usize> {
        match self.slot_at(idx) {
            Some(Slot::Table(t)) => if t < self.heap.tables.len() {
                Some(t)
            } else {
                None
            },
            _ => None,
        }
    }

    /// The handle of the opaque object that `idx` refers to, if it refers
    /// to one.
    pub open spec fn userdata_at(self, idx: int) -> Option<usize> {
        match self.slot_at(idx) {
            Some(Slot::Userdata(u)) => if u < self.heap.userdata.len() {
                Some(u)
            } else {
                None
            },
            _ => None,
        }
    }

    /// The metatable of a value: that of the table or opaque object it
    /// is, if that has one.
    pub open spec fn meta_of(self, v: Slot) -> Option<usize> {
        match v {
            Slot::Table(t) => self.heap.table_meta(t),
            Slot::Userdata(u) => match self.heap.get_userdata(u) {
                Some(o) => o.meta,
                None => None,
            },
            _ => None,
        }
    }

    /// The metatable of what `idx` refers to, if that has one.
    pub open spec fn meta_at(self, idx: int) -> Option<usize> {
        self.meta_of(self.value_at(idx))
    }

    /// What table `t` binds to the key `k`.
    pub open spec fn lookup(self, t: usize, k: Slot) -> Slot {
        self.heap.table_get(t, spec_key(k))
    }

    /// The context after binding `k` to `v` in table `t`.
    pub open spec fn stored(self, t: usize, k: Slot, v: Slot) -> StateView {
        self.with_heap(self.heap.table_set(t, spec_key(k), v))
    }

    /// The context after interning `b`.
    pub open spec fn interned(self, b: Seq<u8>) -> StateView {
        self.with_heap(self.heap.intern(b))
    }

    /// The key that the byte string `b` is once it is interned.
    pub open spec fn str_key(self, b: Seq<u8>) -> Slot {
        Slot::Str(self.heap.intern_id(b) as usize)
    }

    /// The context after giving the value `v` the metatable `meta`.
    pub open spec fn with_meta(self, v: Slot, meta: Option<usize>) -> StateView {
        match v {
            Slot::Table(t) => self.with_heap(self.heap.with_table_meta(t, meta)),
            Slot::Userdata(u) => self.with_heap(
                self.heap.with_userdata(u, Userdata { meta, ..self.heap.userdata[u as int] }),
            ),
            _ => self,
        }
    }

    /// The raw length of a value: the number of bytes of a string, the
    /// size of an opaque object's block, and 0 for what has no length.
    /// The length of a table is stated by `is_border`.
    pub open spec fn raw_len_of(self, v: Slot) -> int {
        match v {
            Slot::Str(id) => match self.heap.string(id) {
                Some(b) => b.len() as int,
                None => 0,
            },
            Slot::Userdata(u) => match self.heap.get_userdata(u) {
                Some(o) => o.size as int,
                None => 0,
            },
            _ => 0,
        }
    }
}

impl State {
    /// The handle of the table that `idx` refers to, if it refers to one.
    pub fn table_at(&self, idx: Index) -> (r: Option<usize>)
        requires
            self.wf(),
        ensures
            r == self@.table_at(idx as int),
    {
        match self.slot(idx) {
            Some(Slot::Table(t)) => if self.heap.is_table(t) {
                Some(t)
            } else {
                None
            },
            _ => None,
        }
    }

    /// The handle of the opaque object that `idx` refers to, if it refers
    /// to one.
    pub fn userdata_at(&self, idx: Index) -> (r: Option<usize>)
        requires
            self.wf(),
        ensures
            r == self@.userdata_at(idx as int),
    {
        match self.slot(idx) {
            Some(Slot::Userdata(u)) => if self.heap.get_userdata(u).is_some() {
                Some(u)
            } else {
                None
            },
            _ => None,
        }
    }

    //=======================================================================
    // Get functions (interpreter -> stack)
    //=======================================================================
    /// Pushes a new empty table.
    pub fn new_table(&mut self)
        requires
            old(self).wf(),
            old(self)@.has_room(1),
        ensures
            final(self)@ == old(self)@.with_heap(old(self)@.heap.with_new_table()).pushed(
                Slot::Table(old(self)@.heap.tables.len() as usize),
            ),
            final(self)@.table_at(-1) == Some(old(self)@.heap.tables.len() as usize),
            final(self).wf(),
    {
        let t = self.heap.new_table();
        self.stack.push(Slot::Table(t));
    }

    /// Pushes a new empty table; the two size hints change nothing that
    /// can be observed.
    pub fn create_table(&mut self, narr: i32, nrec: i32)
        requires
            old(self).wf(),
            old(self)@.has_room(1),
        ensures
            final(self)@ == old(self)@.with_heap(old(self)@.heap.with_new_table()).pushed(
                Slot::Table(old(self)@.heap.tables.len() as usize),
            ),
            final(self)@.table_at(-1) == Some(old(self)@.heap.tables.len() as usize),
            final(self).wf(),
    {
        self.new_table();
    }

    /// Replaces the key on top of the stack by what the table at `index`
    /// binds to it, and returns the classification of that value.
    pub fn raw_get(&mut self, index: Index) -> (t: Type)
        requires
            old(self).wf(),
            old(self)@.top() >= 1,
            old(self)@.table_at(index as int).is_some(),
        ensures
            final(self)@ == old(self)@.popped(1).pushed(
                old(self)@.lookup(old(self)@.table_at(index as int).unwrap(), old(self)@.peek(0)),
            ),
            t == old(self)@.lookup(
                old(self)@.table_at(index as int).unwrap(),
                old(self)@.peek(0),
            ).spec_type_of(),
            final(self).wf(),
    {
        let tb = self.table_at(index).unwrap();
        let k = self.stack.get(-1).unwrap();
        let v = self.heap.table_get(tb, normalize_key(k));
        self.stack.pop(1);
        self.stack.push(v);
        v.type_of()
    }

    /// Pushes what the table at `index` binds to the integer `n`.
    pub fn raw_geti(&mut self, index: Index, n: i64) -> (t: Type)
        requires
            old(self).wf(),
            old(self)@.has_room(1),
            old(self)@.table_at(index as int).is_some(),
        ensures
            final(self)@ == old(self)@.pushed(
                old(self)@.lookup(old(self)@.table_at(index as int).unwrap(), Slot::Int(n)),
            ),
            t == old(self)@.lookup(
                old(self)@.table_at(index as int).unwrap(),
                Slot::Int(n),
            ).spec_type_of(),
            final(self).wf(),
    {
        let tb = self.table_at(index).unwrap();
        let v = self.heap.table_get(tb, Slot::Int(n));
        self.stack.push(v);
        v.type_of()
    }

    /// Pushes what the table at `index` binds to the raw address `p`.
    pub fn raw_getp(&mut self, index: Index, p: usize) -> (t: Type)
        requires
            old(self).wf(),
            old(self)@.has_room(1),
            old(self)@.table_at(index as int).is_some(),
        ensures
            final(self)@ == old(self)@.pushed(
                old(self)@.lookup(
                    old(self)@.table_at(index as int).unwrap(),
                    Slot::LightUserdata(p),
                ),
            ),
            t == old(self)@.lookup(
                old(self)@.table_at(index as int).unwrap(),
                Slot::LightUserdata(p),
            ).spec_type_of(),
            final(self).wf(),
    {
        let tb = self.table_at(index).unwrap();
        let v = self.heap.table_get(tb, Slot::LightUserdata(p));
        self.stack.push(v);
        v.type_of()
    }

    /// Pushes what the table at `index` binds to the string `k`, without
    /// consulting metamethods. The key is interned on the way.
    pub fn raw_get_field(&mut self, index: Index, k: &[u8]) -> (t: Type)
        requires
            old(self).wf(),
            old(self)@.has_room(1),
            old(self)@.table_at(index as int).is_some(),
        ensures
            final(self)@ == old(self)@.interned(k@).pushed(
                old(self)@.interned(k@).lookup(
                    old(self)@.table_at(index as int).unwrap(),
                    old(self)@.str_key(k@),
                ),
            ),
            t == final(self)@.peek(0).spec_type_of(),
            final(self).wf(),
    {
        let tb = self.table_at(index).unwrap();
        let id = self.heap.intern(k);
        let v = self.heap.table_get(tb, Slot::Str(id));
        self.stack.push(v);
        v.type_of()
    }

    /// Pushes the global named `name`.
    pub fn get_global(&mut self, name: &[u8]) -> (t: Type)
        requires
            old(self).wf(),
            old(self)@.has_room(1),
        ensures
            final(self)@ == old(self)@.interned(name@).pushed(
                old(self)@.interned(name@).lookup(GLOBALS, old(self)@.str_key(name@)),
            ),
            t == final(self)@.peek(0).spec_type_of(),
            final(self).wf(),
    {
        let id = self.heap.intern(name);
        let v = self.heap.table_get(GLOBALS, Slot::Str(id));
        self.stack.push(v);
        v.type_of()
    }

    /// Pushes the metatable of what `objindex` refers to, if that has one,
    /// and says whether it pushed.
    pub fn get_metatable(&mut self, objindex: Index) -> (r: bool)
        requires
            old(self).wf(),
            old(self)@.has_room(1),
        ensures
            r == old(self)@.meta_at(objindex as int).is_some(),
            final(self)@ == match old(self)@.meta_at(objindex as int) {
                Some(m) => old(self)@.pushed(Slot::Table(m)),
                None => old(self)@,
            },
            final(self).wf(),
    {
        let meta = match self.slot(objindex) {
            Some(Slot::Table(t)) => self.heap.table_meta(t),
            Some(Slot::Userdata(u)) => match self.heap.get_userdata(u) {
                Some(o) => o.meta,
                None => None,
            },
            _ => None,
        };
        match meta {
            Some(m) => {
                self.stack.push(Slot::Table(m));
                true
            },
            None => false,
        }
    }

    /// Pushes the value attached to the opaque object at `idx` and returns
    /// its classification; pushes nil and returns "no value" where `idx`
    /// refers to no opaque object.
    pub fn get_uservalue(&mut self, idx: Index) -> (t: Type)
        requires
            old(self).wf(),
            old(self)@.has_room(1),
        ensures
            match old(self)@.userdata_at(idx as int) {
                Some(u) => final(self)@ == old(self)@.pushed(
                    old(self)@.heap.userdata[u as int].uservalue,
                ) && t == old(self)@.heap.userdata[u as int].uservalue.spec_type_of(),
                None => final(self)@ == old(self)@.pushed(Slot::Nil) && t == Type::NoValue,
            },
            final(self).wf(),
    {
        match self.userdata_at(idx) {
            Some(u) => {
                let v = self.heap.get_userdata(u).unwrap().uservalue;
                self.stack.push(v);
                v.type_of()
            },
            None => {
                self.stack.push(Slot::Nil);
                Type::NoValue
            },
        }
    }

    //=======================================================================
    // Set functions (stack -> interpreter)
    //=======================================================================
    /// Binds, in the table at `idx`, the key just below the top of the
    /// stack to the value on top, and pops both. A nil or NaN key is an
    /// error, which leaves the table as it was.
    pub fn raw_set(&mut self, idx: Index) -> (r: Result<(), Error>)
        requires
            old(self).wf(),
            old(self)@.top() >= 2,
            old(self)@.table_at(idx as int).is_some(),
        ensures
            match r {
                Ok(()) => spec_key_ok(old(self)@.peek(1)) && final(self)@ == old(self)@.stored(
                    old(self)@.table_at(idx as int).unwrap(),
                    old(self)@.peek(1),
                    old(self)@.peek(0),
                ).popped(2),
                Err(e) => !spec_key_ok(old(self)@.peek(1)) && e@ == spec_key_error(
                    old(self)@.peek(1),
                ) && final(self)@ == old(self)@.popped(2),
            },
            final(self).wf(),
    {
        let tb = self.table_at(idx).unwrap();
        let k = self.stack.get(-2).unwrap();
        let v = self.stack.get(-1).unwrap();
        self.stack.pop(2);
        match check_key(k) {
            Ok(()) => {
                self.heap.table_set(tb, normalize_key(k), v);
                Ok(())
            },
            Err(e) => Err(e),
        }
    }

    /// Binds, in the table at `idx`, the integer `n` to the value on top
    /// of the stack, and pops it.
    pub fn raw_seti(&mut self, idx: Index, n: i64)
        requires
            old(self).wf(),
            old(self)@.top() >= 1,
            old(self)@.table_at(idx as int).is_some(),
        ensures
            final(self)@ == old(self)@.stored(
                old(self)@.table_at(idx as int).unwrap(),
                Slot::Int(n),
                old(self)@.peek(0),
            ).popped(1),
            final(self).wf(),
    {
        let tb = self.table_at(idx).unwrap();
        let v = self.stack.get(-1).unwrap();
        self.stack.pop(1);
        self.heap.table_set(tb, Slot::Int(n), v);
    }

    /// Binds, in the table at `idx`, the raw address `p` to the value on
    /// top of the stack, and pops it.
    pub fn raw_setp(&mut self, idx: Index, p: usize)
        requires
            old(self).wf(),
            old(self)@.top() >= 1,
            old(self)@.table_at(idx as int).is_some(),
        ensures
            final(self)@ == old(self)@.stored(
                old(self)@.table_at(idx as int).unwrap(),
                Slot::LightUserdata(p),
                old(self)@.peek(0),
            ).popped(1),
            final(self).wf(),
    {
        let tb = self.table_at(idx).unwrap();
        let v = self.stack.get(-1).unwrap();
        self.stack.pop(1);
        self.heap.table_set(tb, Slot::LightUserdata(p), v);
    }

    /// Binds, in the table at `idx`, the string `k` to the value on top of
    /// the stack, and pops it, without consulting metamethods.
    pub fn raw_set_field(&mut self, idx: Index, k: &[u8])
        requires
            old(self).wf(),
            old(self)@.top() >= 1,
            old(self)@.table_at(idx as int).is_some(),
        ensures
            final(self)@ == old(self)@.interned(k@).stored(
                old(self)@.table_at(idx as int).unwrap(),
                old(self)@.str_key(k@),
                old(self)@.peek(0),
            ).popped(1),
            final(self).wf(),
    {
        let tb = self.table_at(idx).unwrap();
        let v = self.stack.get(-1).unwrap();
        self.stack.pop(1);
        let id = self.heap.intern(k);
        self.heap.table_set(tb, Slot::Str(id), v);
    }

    /// Binds the global named `var` to the value on top of the stack, and
    /// pops it.
    pub fn set_global(&mut self, var: &[u8])
        requires
            old(self).wf(),
            old(self)@.top() >= 1,
        ensures
            final(self)@ == old(self)@.interned(var@).stored(
                GLOBALS,
                old(self)@.str_key(var@),
                old(self)@.peek(0),
            ).popped(1),
            final(self).wf(),
    {
        let v = self.stack.get(-1).unwrap();
        self.stack.pop(1);
        let id = self.heap.intern(var);
        self.heap.table_set(GLOBALS, Slot::Str(id), v);
    }

    /// Pops a table or nil and makes it the metatable of the table or
    /// opaque object at `objindex`; nil takes the metatable away.
    pub fn set_metatable(&mut self, objindex: Index)
        requires
            old(self).wf(),
            old(self)@.top() >= 1,
            old(self)@.peek(0) is Nil || old(self)@.peek(0) is Table,
            old(self)@.table_at(objindex as int).is_some() || old(self)@.userdata_at(
                objindex as int,
            ).is_some(),
        ensures
            final(self)@ == old(self)@.with_meta(
                old(self)@.value_at(objindex as int),
                match old(self)@.peek(0) {
                    Slot::Table(m) => Some(m),
                    _ => None,
                },
            ).popped(1),
            final(self).wf(),
    {
        let meta = match self.stack.get(-1).unwrap() {
            Slot::Table(m) => Some(m),
            _ => None,
        };
        let target = self.slot(objindex).unwrap();
        self.stack.pop(1);
        match target {
            Slot::Table(t) => {
                self.heap.set_table_meta(t, meta);
            },
            Slot::Userdata(u) => {
                let o = self.heap.get_userdata(u).unwrap();
                self.heap.set_userdata(u, Userdata { meta, ..o });
            },
            _ => {},
        }
    }

    /// Pops a value and attaches it to the opaque object at `idx`.
    pub fn set_uservalue(&mut self, idx: Index)
        requires
            old(self).wf(),
            old(self)@.top() >= 1,
            old(self)@.userdata_at(idx as int).is_some(),
        ensures
            final(self)@ == old(self)@.with_heap(
                old(self)@.heap.with_userdata(
                    old(self)@.userdata_at(idx as int).unwrap(),
                    Userdata {
                        uservalue: old(self)@.peek(0),
                        ..old(self)@.heap.userdata[old(self)@.userdata_at(idx as int).unwrap() as int]
                    },
                ),
            ).popped(1),
            final(self).wf(),
    {
        let u = self.userdata_at(idx).unwrap();
        let v = self.stack.get(-1).unwrap();
        self.stack.pop(1);
        let o = self.heap.get_userdata(u).unwrap();
        self.heap.set_userdata(u, Userdata { uservalue: v, ..o });
    }

    /// Creates an opaque object and pushes it.
    pub fn new_userdata(&mut self, u: Userdata)
        requires
            old(self).wf(),
            old(self)@.has_room(1),
        ensures
            final(self)@ == old(self)@.with_heap(old(self)@.heap.with_new_userdata(u)).pushed(
                Slot::Userdata(old(self)@.heap.userdata.len() as usize),
            ),
            final(self)@.userdata_at(-1) == Some(old(self)@.heap.userdata.len() as usize),
            final(self).wf(),
    {
        let id = self.heap.new_userdata(u);
        self.stack.push(Slot::Userdata(id));
    }

    /// The raw length of what `index` refers to: the number of bytes of a
    /// string, the size of an opaque object's block, the length of a
    /// table's array part, and 0 for everything else.
    pub fn raw_len(&self, index: Index) -> (n: usize)
        requires
            self.wf(),
        ensures
            match self@.table_at(index as int) {
                Some(t) => self@.heap.tables[t as int].is_border(n as int),
                None => n == self@.raw_len_of(self@.value_at(index as int)),
            },
    {
        match self.slot(index) {
            Some(Slot::Str(id)) => match self.heap.string(id) {
                Some(b) => b.len(),
                None => 0,
            },
            Some(Slot::Userdata(u)) => match self.heap.get_userdata(u) {
                Some(o) => o.size,
                None => 0,
            },
            Some(Slot::Table(t)) => if self.heap.is_table(t) {
                self.heap.table_border(t)
            } else {
                0
            },
            _ => 0,
        }
    }

    /// The host address of the opaque object at `index` if its block has
    /// the size `size`; `None` for anything else.
    pub fn get_userdata_by_size(&self, index: Index, size: usize) -> (r: Option<usize>)
        requires
            self.wf(),
        ensures
            r == match self@.userdata_at(index as int) {
                Some(u) => if self@.heap.userdata[u as int].size == size {
                    Some(self@.heap.userdata[u as int].target)
                } else {
                    None
                },
                None => None,
            },
    {
        match self.userdata_at(index) {
            Some(u) => {
                let o = self.heap.get_userdata(u).unwrap();
                if o.size == size {
                    Some(o.target)
                } else {
                    None
                }
            },
            None => None,
        }
    }

    //=======================================================================
    // Native closures
    //=======================================================================
    /// Pops `n` values and pushes a native closure that has them as its
    /// upvalues, first popped last; `f` is the identity of the closure's
    /// entry point.
    pub fn push_cclosure(&mut self, f: usize, n: i32)
        requires
            old(self).wf(),
            0 <= n <= MAX_UPVALUES,
            n <= old(self)@.top(),
            n == 0 ==> old(self)@.has_room(1),
        ensures
            final(self)@ == old(self)@.popped(n as int).with_heap(
                old(self)@.heap.with_new_closure(
                    f,
                    old(self)@.stack.subrange(old(self)@.top() - n, old(self)@.top()),
                ),
            ).pushed(Slot::Function(old(self)@.heap.closures.len() as usize)),
            final(self).wf(),
    {
        let mut ups: Vec<Slot> = Vec::new();
        let top: i32 = self.get_top();
        let mut i: i32 = 0;
        while i < n
            invariant
                0 <= i <= n <= top,
                top == self@.top(),
                self.wf(),
                *self == *old(self),
                ups@ == self@.stack.subrange(top - n, top - n + i),
            decreases n - i,
        {
            let v = self.stack.get(top - n + i + 1).unwrap();
            ups.push(v);
            proof {
                assert(ups@ =~= self@.stack.subrange(top - n, top - n + i + 1));
            }
            i = i + 1;
        }
        self.stack.pop(n);
        let id = self.heap.new_closure(f, ups);
        self.stack.push(Slot::Function(id));
    }

    /// Pushes a native function without upvalues.
    pub fn push_fn(&mut self, f: usize)
        requires
            old(self).wf(),
            old(self)@.has_room(1),
        ensures
            final(self)@ == old(self)@.with_heap(
                old(self)@.heap.with_new_closure(f, Seq::empty()),
            ).pushed(Slot::Function(old(self)@.heap.closures.len() as usize)),
            final(self).wf(),
    {
        self.push_cclosure(f, 0);
        proof {
            assert(old(self)@.stack.subrange(old(self)@.top(), old(self)@.top()) =~= Seq::<
                Slot,
            >::empty());
            assert(old(self)@.popped(0).stack =~= old(self)@.stack);
        }
    }
}

/// The error raised where a value that is no table is indexed.
pub open spec fn spec_index_error(t: Type) -> ErrorView {
    ErrorView::Runtime(
        "attempt to index a ".spec_bytes() + crate::diag::spec_typename(t) + " value".spec_bytes(),
    )
}

impl State {
    /// The error raised where what `index` refers to is indexed and is no
    /// table.
    pub fn index_error(&self, index: Index) -> (e: Error)
        requires
            self.wf(),
        ensures
            e@ == spec_index_error(self@.type_at(index as int)),
    {
        let mut m: Vec<u8> = Vec::new();
        crate::text::append_str(&mut m, "attempt to index a ");
        let n = self.typename_at(index);
        crate::text::append(&mut m, n.as_slice());
        crate::text::append_str(&mut m, " value");
        proof {
            assert(m@ =~= "attempt to index a ".spec_bytes() + crate::diag::spec_typename(
                self@.type_at(index as int),
            ) + " value".spec_bytes());
        }
        Error::Runtime(m)
    }

    /// Replaces the key on top of the stack by what the table at `index`
    /// binds to it, and returns the classification of that value. Where
    /// `index` refers to no table, the result is the error to raise, and
    /// the stack is left as it was.
    pub fn get_table(&mut self, index: Index) -> (r: Result<Type, Error>)
        requires
            old(self).wf(),
            old(self)@.top() >= 1,
        ensures
            final(self).wf(),
            match old(self)@.table_at(index as int) {
                Some(t) => {
                    &&& r == Ok::<Type, Error>(
                        old(self)@.lookup(t, old(self)@.peek(0)).spec_type_of(),
                    )
                    &&& final(self)@ == old(self)@.popped(1).pushed(
                        old(self)@.lookup(t, old(self)@.peek(0)),
                    )
                },
                None => {
                    &&& (r matches Err(e) && e@ == spec_index_error(
                        old(self)@.type_at(index as int),
                    ))
                    &&& final(self)@ == old(self)@
                },
            },
    {
        if self.table_at(index).is_some() {
            Ok(self.raw_get(index))
        } else {
            Err(self.index_error(index))
        }
    }

    /// Pushes what the table at `index` binds to the integer `i`. Where
    /// `index` refers to no table, the result is the error to raise, and
    /// nothing is pushed.
    pub fn geti(&mut self, index: Index, i: i64) -> (r: Result<Type, Error>)
        requires
            old(self).wf(),
            old(self)@.has_room(1),
        ensures
            final(self).wf(),
            match old(self)@.table_at(index as int) {
                Some(t) => {
                    &&& r == Ok::<Type, Error>(old(self)@.lookup(t, Slot::Int(i)).spec_type_of())
                    &&& final(self)@ == old(self)@.pushed(old(self)@.lookup(t, Slot::Int(i)))
                },
                None => {
                    &&& (r matches Err(e) && e@ == spec_index_error(
                        old(self)@.type_at(index as int),
                    ))
                    &&& final(self)@ == old(self)@
                },
            },
    {
        if self.table_at(index).is_some() {
            Ok(self.raw_geti(index, i))
        } else {
            Err(self.index_error(index))
        }
    }

    /// Pushes what the table at `index` binds to the string `k`. Where
    /// `index` refers to no table, the result is the error to raise, and
    /// nothing is pushed.
    pub fn get_field(&mut self, index: Index, k: &[u8]) -> (r: Result<Type, Error>)
        requires
            old(self).wf(),
            old(self)@.has_room(1),
        ensures
            final(self).wf(),
            match old(self)@.table_at(index as int) {
                Some(t) => {
                    &&& final(self)@ == old(self)@.interned(k@).pushed(
                        old(self)@.interned(k@).lookup(t, old(self)@.str_key(k@)),
                    )
                    &&& r == Ok::<Type, Error>(final(self)@.peek(0).spec_type_of())
                },
                None => {
                    &&& (r matches Err(e) && e@ == spec_index_error(
                        old(self)@.type_at(index as int),
                    ))
                    &&& final(self)@ == old(self)@
                },
            },
    {
        if self.table_at(index).is_some() {
            Ok(self.raw_get_field(index, k))
        } else {
            Err(self.index_error(index))
        }
    }

    /// Binds, in the table at `idx`, the key just below the top of the
    /// stack to the value on top, and pops both. A nil or NaN key is an
    /// error, which leaves the table as it was. Where `idx` refers to no
    /// table, the result is the error to raise, and the stack is left as
    /// it was.
    pub fn set_table(&mut self, idx: Index) -> (r: Result<(), Error>)
        requires
            old(self).wf(),
            old(self)@.top() >= 2,
        ensures
            final(self).wf(),
            match old(self)@.table_at(idx as int) {
                Some(t) => match r {
                    Ok(()) => spec_key_ok(old(self)@.peek(1)) && final(self)@ == old(
                        self,
                    )@.stored(t, old(self)@.peek(1), old(self)@.peek(0)).popped(2),
                    Err(e) => !spec_key_ok(old(self)@.peek(1)) && e@ == spec_key_error(
                        old(self)@.peek(1),
                    ) && final(self)@ == old(self)@.popped(2),
                },
                None => {
                    &&& (r matches Err(e) && e@ == spec_index_error(
                        old(self)@.type_at(idx as int),
                    ))
                    &&& final(self)@ == old(self)@
                },
            },
    {
        if self.table_at(idx).is_some() {
            self.raw_set(idx)
        } else {
            Err(self.index_error(idx))
        }
    }

    /// Binds, in the table at `idx`, the integer `n` to the value on top
    /// of the stack, and pops it. Where `idx` refers to no table, the
    /// result is the error to raise, and the stack is left as it was.
    pub fn seti(&mut self, idx: Index, n: i64) -> (r: Result<(), Error>)
        requires
            old(self).wf(),
            old(self)@.top() >= 1,
        ensures
            final(self).wf(),
            match old(self)@.table_at(idx as int) {
                Some(t) => r.is_ok() && final(self)@ == old(self)@.stored(
                    t,
                    Slot::Int(n),
                    old(self)@.peek(0),
                ).popped(1),
                None => {
                    &&& (r matches Err(e) && e@ == spec_index_error(
                        old(self)@.type_at(idx as int),
                    ))
                    &&& final(self)@ == old(self)@
                },
            },
    {
        if self.table_at(idx).is_some() {
            self.raw_seti(idx, n);
            Ok(())
        } else {
            Err(self.index_error(idx))
        }
    }

    /// Binds, in the table at `idx`, the string `k` to the value on top of
    /// the stack, and pops it. Where `idx` refers to no table, the result
    /// is the error to raise, and the stack is left as it was.
    pub fn set_field(&mut self, idx: Index, k: &[u8]) -> (r: Result<(), Error>)
        requires
            old(self).wf(),
            old(self)@.top() >= 1,
        ensures
            final(self).wf(),
            match old(self)@.table_at(idx as int) {
                Some(t) => r.is_ok() && final(self)@ == old(self)@.interned(k@).stored(
                    t,
                    old(self)@.str_key(k@),
                    old(self)@.peek(0),
                ).popped(1),
                None => {
                    &&& (r matches Err(e) && e@ == spec_index_error(
                        old(self)@.type_at(idx as int),
                    ))
                    &&& final(self)@ == old(self)@
                },
            },
    {
        if self.table_at(idx).is_some() {
            self.raw_set_field(idx, k);
            Ok(())
        } else {
            Err(self.index_error(idx))
        }
    }
}

} // verus!
