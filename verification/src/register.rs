//! The registration surface: binding host functions into tables, and the
//! argument helpers that registered functions use.

use vstd::prelude::*;
use vstd::string::StringSliceAdditionalSpecFns;
use crate::convert::ToLua;
use crate::diag::{arg_error, spec_arg_error, spec_typename};
use crate::error::{Error, ErrorView};
use crate::function::{Outcome, RsFn};
use crate::heap::{bytes_eq, bytes_to_vec};
use crate::intconv::wrap_usize;
use crate::number::{saturate_unsigned, to_integer};
use crate::slot::Slot;
use crate::stack::{Index, MAX_UPVALUES, MIN_STACK};
use crate::state::{State, StateView};
use crate::status::Type;
use crate::text::{append, append_str};
use crate::value::{lemma_extends_ref, ValRef};

verus! {

/// Registers host methods of an opaque-object type that take the object
/// by shared reference.
#[derive(Clone, Copy, Debug, PartialEq, Eq, Structural)]
pub struct MethodRegistry {
    /// The table that the methods are bound in.
    pub table: ValRef,
}

/// Registers host methods of an opaque-object type that take the object
/// by mutable reference.
#[derive(Clone, Copy, Debug, PartialEq, Eq, Structural)]
pub struct MethodRegistryMut {
    /// The table that the methods are bound in.
    pub table: ValRef,
}

impl ValRef {
    /// Binds the host value `k` to the host function `v` in the table.
    pub fn register<K: ToLua>(&self, state: &mut State, k: K, v: RsFn) -> (r: Result<(), Error>)
        requires
            old(state).wf(),
            old(state)@.has_room(2 * MIN_STACK),
            old(state)@.is_absolute(self.index as int),
            K::spec_is_top() ==> old(state)@.top() >= 1,
            k.spec_pushable(old(state)@),
            v.spec_pushable(k.spec_pushed(old(state)@)),
        ensures
            final(state)@ == Self::spec_set(old(state)@, self.index as int, k, v).0,
            match r {
                Ok(()) => Self::spec_set(old(state)@, self.index as int, k, v).1.is_none(),
                Err(e) => Self::spec_set(old(state)@, self.index as int, k, v).1 == Some(e@),
            },
            final(state).wf(),
    {
        self.set(state, k, v)
    }
}

impl MethodRegistry {
    /// A registry that binds into the table `mt`.
    pub fn new(mt: &ValRef) -> (r: MethodRegistry)
        ensures
            r.table == *mt,
    {
        MethodRegistry { table: *mt }
    }

    /// Binds the host value `k` to the host method `v`.
    pub fn register<K: ToLua>(&self, state: &mut State, k: K, v: RsFn) -> (r: Result<(), Error>)
        requires
            old(state).wf(),
            old(state)@.has_room(2 * MIN_STACK),
            old(state)@.is_absolute(self.table.index as int),
            K::spec_is_top() ==> old(state)@.top() >= 1,
            k.spec_pushable(old(state)@),
            v.spec_pushable(k.spec_pushed(old(state)@)),
        ensures
            final(state)@ == ValRef::spec_set(old(state)@, self.table.index as int, k, v).0,
            match r {
                Ok(()) => ValRef::spec_set(old(state)@, self.table.index as int, k, v).1.is_none(),
                Err(e) => ValRef::spec_set(old(state)@, self.table.index as int, k, v).1 == Some(
                    e@,
                ),
            },
            final(state).wf(),
    {
        self.table.set(state, k, v)
    }
}

impl MethodRegistryMut {
    /// A registry that binds into the table `mt`.
    pub fn new(mt: &ValRef) -> (r: MethodRegistryMut)
        ensures
            r.table == *mt,
    {
        MethodRegistryMut { table: *mt }
    }

    /// Binds the host value `k` to the host method `v`.
    pub fn register<K: ToLua>(&self, state: &mut State, k: K, v: RsFn) -> (r: Result<(), Error>)
        requires
            old(state).wf(),
            old(state)@.has_room(2 * MIN_STACK),
            old(state)@.is_absolute(self.table.index as int),
            K::spec_is_top() ==> old(state)@.top() >= 1,
            k.spec_pushable(old(state)@),
            v.spec_pushable(k.spec_pushed(old(state)@)),
        ensures
            final(state)@ == ValRef::spec_set(old(state)@, self.table.index as int, k, v).0,
            match r {
                Ok(()) => ValRef::spec_set(old(state)@, self.table.index as int, k, v).1.is_none(),
                Err(e) => ValRef::spec_set(old(state)@, self.table.index as int, k, v).1 == Some(
                    e@,
                ),
            },
            final(state).wf(),
    {
        self.table.set(state, k, v)
    }
}

/// One entry of a library: a name and the entry point of the function
/// that goes by it.
pub struct LibEntry {
    pub name: Vec<u8>,
    pub func: usize,
}

/// The context after the first `n` entries of a library are bound in
/// table `t`.
pub open spec fn spec_set_fns(s: StateView, t: usize, l: Seq<LibEntry>, n: int) -> StateView
    decreases n,
{
    if n <= 0 {
        s
    } else {
        spec_set_fns(s, t, l, n - 1).pushed_fn(l[n - 1].func).raw_set_field(t, l[n - 1].name@)
    }
}

impl StateView {
    /// The integer that `i` refers to: an integer as it is, a
    /// floating-point number that is exactly an integer as that integer,
    /// and a string that is an integer numeral as the integer it stands
    /// for.
    pub open spec fn integer_at(self, i: int) -> Option<i64> {
        match self.slot_at(i) {
            Some(Slot::Int(n)) => Some(n),
            Some(Slot::Num(b)) => crate::number::spec_to_integer(b),
            _ => self.numeral_at(i),
        }
    }
}

impl State {
    /// Pushes the metatable of the value at `i` and the host value `k`,
    /// and replaces `k` by what the table below it binds to it; returns
    /// the classification of what was found. The table below `k` is the
    /// metatable, unless `k` stands for the top of the stack: then the
    /// metatable is the key, and the table is what lay on top before.
    /// Pushes nothing and returns "no value" where the value has no
    /// metatable.
    pub fn get_metatable_by<K: ToLua>(&mut self, i: Index, k: K) -> (t: Type)
        requires
            old(self).wf(),
            old(self)@.has_room(1 + MIN_STACK),
            old(self)@.meta_at(i as int) matches Some(m) ==> k.spec_pushable(
                old(self)@.pushed(Slot::Table(m)),
            ) && if K::spec_is_top() {
                old(self)@.table_at(-1).is_some()
            } else {
                m < old(self)@.heap.tables.len()
            },
        ensures
            match old(self)@.meta_at(i as int) {
                Some(m) => {
                    let base = old(self)@.pushed(Slot::Table(m));
                    let pushed = k.spec_pushed(base);
                    let table = if K::spec_is_top() {
                        old(self)@.table_at(-1).unwrap()
                    } else {
                        m
                    };
                    &&& final(self)@ == pushed.popped(1).pushed(
                        pushed.lookup(table, pushed.peek(0)),
                    )
                    &&& t == final(self)@.peek(0).spec_type_of()
                },
                None => final(self)@ == old(self)@ && t == Type::NoValue,
            },
            final(self).wf(),
    {
        let ghost pre = self@;
        if self.get_metatable(i) {
            let ghost base = self@;
            proof {
                k.lemma_pushed(base);
                lemma_extends_ref(base, k.spec_pushed(base), base.top());
                if K::spec_is_top() {
                    crate::convert::lemma_pushed_slot(pre, base.peek(0));
                    lemma_extends_ref(pre, base, pre.top());
                    lemma_extends_ref(base, k.spec_pushed(base), pre.top());
                }
            }
            self.push(k);
            self.raw_get(-2)
        } else {
            Type::NoValue
        }
    }

    /// Binds the functions of a library in the table on top of the stack,
    /// each under its name.
    pub fn set_fns(&mut self, l: &Vec<LibEntry>)
        requires
            old(self).wf(),
            old(self)@.has_room(1),
            old(self)@.table_at(-1).is_some(),
        ensures
            final(self)@ == spec_set_fns(
                old(self)@,
                old(self)@.table_at(-1).unwrap(),
                l@,
                l@.len() as int,
            ),
            final(self)@.stack == old(self)@.stack,
            final(self).wf(),
    {
        let ghost t = self@.table_at(-1).unwrap();
        let mut i: usize = 0;
        while i < l.len()
            invariant
                i <= l@.len(),
                self.wf(),
                self@ == spec_set_fns(old(self)@, t, l@, i as int),
                self@.stack == old(self)@.stack,
                self@.heap.tables.len() >= old(self)@.heap.tables.len(),
                old(self)@.table_at(-1) == Some(t),
                old(self)@.has_room(1),
            decreases l@.len() - i,
        {
            let ghost before = self@;
            self.push_fn(l[i].func);
            self.raw_set_field(-2, l[i].name.as_slice());
            proof {
                assert(self@.stack =~= before.stack);
            }
            i = i + 1;
        }
    }

    /// Pushes a new table that holds the functions of a library, each
    /// under its name.
    pub fn new_lib(&mut self, l: &Vec<LibEntry>)
        requires
            old(self).wf(),
            old(self)@.has_room(2),
        ensures
            final(self)@ == spec_set_fns(
                old(self)@.pushed_table(),
                old(self)@.heap.tables.len() as usize,
                l@,
                l@.len() as int,
            ),
            final(self).wf(),
    {
        self.create_table(0, 0);
        self.set_fns(l);
    }

    /// The integer that `index` refers to: an integer as it is, a
    /// floating-point number that is exactly an integer as that integer,
    /// and a string that is an integer numeral as the integer it stands
    /// for.
    pub fn to_integerx(&self, index: Index) -> (r: Option<i64>)
        requires
            self.wf(),
        ensures
            r == self@.integer_at(index as int),
    {
        match self.slot(index) {
            Some(Slot::Int(n)) => Some(n),
            Some(Slot::Num(b)) => to_integer(b),
            _ => self.numeral(index),
        }
    }

    /// The integer that `index` refers to, and 0 where it refers to none.
    pub fn to_integer(&self, index: Index) -> (r: i64)
        requires
            self.wf(),
        ensures
            r == match self@.integer_at(index as int) {
                Some(n) => n,
                None => 0,
            },
    {
        match self.to_integerx(index) {
            Some(n) => n,
            None => 0,
        }
    }

    /// The address that stands for what `i` refers to, for the host's
    /// foreign-function helpers: a number as the address that it is, a raw
    /// address as itself, an opaque object as the host address it stands
    /// for, and any other object as its handle. Nil, booleans and what is
    /// not there have no address.
    pub fn to_ffi_pointer(&self, i: Index) -> (r: Option<usize>)
        requires
            self.wf(),
        ensures
            r == match self@.slot_at(i as int) {
                Some(Slot::Int(n)) => Some(
                    crate::intconv::spec_wrap(n as int, 0, usize::MAX + 1) as usize,
                ),
                Some(Slot::Num(b)) => Some(
                    crate::number::spec_saturated(b, 0, usize::MAX as int) as usize,
                ),
                Some(Slot::Str(id)) => Some(id),
                Some(Slot::LightUserdata(p)) => if p == 0 {
                    None
                } else {
                    Some(p)
                },
                Some(Slot::Userdata(u)) => match self@.heap.get_userdata(u) {
                    Some(o) => if o.target == 0 {
                        None
                    } else {
                        Some(o.target)
                    },
                    None => None,
                },
                Some(Slot::Table(t)) => Some(t),
                Some(Slot::Function(f)) => Some(f),
                Some(Slot::Thread(t)) => Some(t),
                _ => None,
            },
    {
        match self.slot(i) {
            Some(Slot::Int(n)) => Some(wrap_usize(n)),
            Some(Slot::Num(b)) => Some(saturate_unsigned(b, usize::MAX as u64) as usize),
            Some(Slot::Str(id)) => Some(id),
            Some(Slot::LightUserdata(p)) => if p == 0 {
                None
            } else {
                Some(p)
            },
            Some(Slot::Userdata(u)) => match self.heap.get_userdata(u) {
                Some(o) => if o.target == 0 {
                    None
                } else {
                    Some(o.target)
                },
                None => None,
            },
            Some(Slot::Table(t)) => Some(t),
            Some(Slot::Function(f)) => Some(f),
            Some(Slot::Thread(t)) => Some(t),
            _ => None,
        }
    }
}

/// The message for an argument that is none of the options.
pub open spec fn spec_invalid_option(name: Seq<u8>) -> Seq<u8> {
    "invalid option '".spec_bytes() + name + "'".spec_bytes()
}

impl State {
    /// Reads argument `arg` as one of the options `lst` and returns the
    /// position of the first of them that it equals. Where the argument is missing or nil, `def`
    /// stands in for it if there is one. An argument that is no string is
    /// a type error, and a string that is none of the options is an
    /// argument error.
    pub fn check_option(&self, arg: Index, def: Option<&[u8]>, lst: &Vec<Vec<u8>>) -> (r: Result<
        usize,
        Error,
    >)
        requires
            self.wf(),
        ensures
            ({
                let name = if def.is_some() && self@.value_at(arg as int) == Slot::Nil {
                    Some(def.unwrap()@)
                } else {
                    self@.bytes_at(arg as int)
                };
                match r {
                    Ok(i) => name.is_some() && i < lst@.len() && lst@[i as int]@ == name.unwrap()
                        && forall|j: int| 0 <= j < i ==> lst@[j]@ != name.unwrap(),
                    Err(e) => match name {
                        None => e@ == self@.type_error(arg as int, spec_typename(Type::String)),
                        Some(n) => (forall|j: int| 0 <= j < lst@.len() ==> lst@[j]@ != n) && e@
                            == ErrorView::Runtime(
                            spec_arg_error(arg as int, spec_invalid_option(n)),
                        ),
                    },
                }
            }),
    {
        let name: Vec<u8> = if def.is_some() && self.is_none_or_nil(arg) {
            bytes_to_vec(def.unwrap())
        } else {
            match self.to_bytes(arg) {
                Some(b) => bytes_to_vec(b.as_slice()),
                None => {
                    let n = State::typename_of(Type::String);
                    return Err(self.type_error(arg, n.as_slice()));
                },
            }
        };
        let mut i: usize = 0;
        while i < lst.len()
            invariant
                i <= lst@.len(),
                forall|j: int| 0 <= j < i ==> lst@[j]@ != name@,
                Some(name@) == (if def.is_some() && self@.value_at(arg as int) == Slot::Nil {
                    Some(def.unwrap()@)
                } else {
                    self@.bytes_at(arg as int)
                }),
            decreases lst@.len() - i,
        {
            if bytes_eq(lst[i].as_slice(), name.as_slice()) {
                return Ok(i);
            }
            i = i + 1;
        }
        let mut m: Vec<u8> = Vec::new();
        append_str(&mut m, "invalid option '");
        append(&mut m, name.as_slice());
        append_str(&mut m, "'");
        proof {
            assert(m@ =~= spec_invalid_option(name@));
        }
        Err(arg_error(arg, m.as_slice()))
    }
}

/// The identity of the entry point of the global function `topointer`.
pub const TOPOINTER_ENTRY: usize = 8;

/// The identity of the entry point of the global function `cclosure`.
pub const CCLOSURE_ENTRY: usize = 9;

/// The native function `topointer`: returns the address that stands for
/// its argument, or nil where the argument has none.
pub fn topointer(s: &mut State) -> (r: Result<Outcome, Error>)
    requires
        old(s).wf(),
        old(s)@.has_room(1),
    ensures
        r == Ok::<Outcome, Error>(Outcome::Return(1)),
        final(s)@ == old(s)@.pushed(spec_pointer_value(old(s)@, 1)),
        final(s).wf(),
{
    match s.to_ffi_pointer(1) {
        Some(p) => {
            s.push_integer(crate::intconv::from_unsigned(p as u64));
        },
        None => {
            s.push_nil();
        },
    }
    Ok(Outcome::Return(1))
}

/// What `topointer` returns for the value at `i`.
pub open spec fn spec_pointer_value(s: StateView, i: int) -> Slot {
    match s.slot_at(i) {
        Some(Slot::Int(n)) => Slot::Int(
            crate::intconv::spec_from_unsigned(
                crate::intconv::spec_wrap(n as int, 0, usize::MAX + 1),
            ) as i64,
        ),
        Some(Slot::Num(b)) => Slot::Int(
            crate::intconv::spec_from_unsigned(
                crate::number::spec_saturated(b, 0, usize::MAX as int),
            ) as i64,
        ),
        Some(Slot::Str(id)) => Slot::Int(crate::intconv::spec_from_unsigned(id as int) as i64),
        Some(Slot::LightUserdata(p)) => if p == 0 {
            Slot::Nil
        } else {
            Slot::Int(crate::intconv::spec_from_unsigned(p as int) as i64)
        },
        Some(Slot::Userdata(u)) => match s.heap.get_userdata(u) {
            Some(o) => if o.target == 0 {
                Slot::Nil
            } else {
                Slot::Int(crate::intconv::spec_from_unsigned(o.target as int) as i64)
            },
            None => Slot::Nil,
        },
        Some(Slot::Table(t)) => Slot::Int(crate::intconv::spec_from_unsigned(t as int) as i64),
        Some(Slot::Function(f)) => Slot::Int(crate::intconv::spec_from_unsigned(f as int) as i64),
        Some(Slot::Thread(t)) => Slot::Int(crate::intconv::spec_from_unsigned(t as int) as i64),
        _ => Slot::Nil,
    }
}

/// The native function `cclosure`: makes a closure of the native function
/// that is its first argument, with the other arguments as upvalues, and
/// returns it. A first argument that is no native function is a type
/// error, and so are more upvalues than a closure can carry.
pub fn cclosure(s: &mut State) -> (r: Result<Outcome, Error>)
    requires
        old(s).wf(),
        old(s)@.has_room(1),
    ensures
        final(s).wf(),
        match r {
            Ok(o) => {
                let c = old(s)@.callee_closure(old(s)@.top() - 1);
                &&& old(s)@.top() >= 1
                &&& old(s)@.top() - 1 <= MAX_UPVALUES
                &&& c.is_some()
                &&& o == Outcome::Return(1)
                &&& final(s)@ == old(s)@.closed(c.unwrap().entry, old(s)@.top() - 1)
            },
            Err(e) => {
                &&& final(s)@ == old(s)@
                &&& (old(s)@.top() < 1 || old(s)@.top() - 1 > MAX_UPVALUES || old(s)@.callee_closure(
                    old(s)@.top() - 1,
                ).is_none())
                &&& e@ == old(s)@.type_error(1, "cfunction".spec_bytes())
            },
        },
{
    let top: i32 = s.get_top();
    match s.to_native_fn(1) {
        Some(f) => {
            if top - 1 <= MAX_UPVALUES {
                s.push_cclosure(f, top - 1);
                return Ok(Outcome::Return(1));
            }
        },
        None => {},
    }
    Err(s.type_error(1, "cfunction".as_bytes()))
}

impl StateView {
    /// The context after the globals that the library provides are set:
    /// the size of a pointer as `__llua_psize`, and the functions
    /// `topointer` and `cclosure`.
    pub open spec fn with_llua_globals(self) -> StateView {
        let s1 = self.pushed(Slot::Int(crate::function::spec_pointer_size() as i64)).raw_set_field(
            crate::heap::GLOBALS,
            "__llua_psize".spec_bytes(),
        );
        let s2 = s1.pushed_fn(TOPOINTER_ENTRY).raw_set_field(
            crate::heap::GLOBALS,
            "topointer".spec_bytes(),
        );
        s2.pushed_fn(CCLOSURE_ENTRY).raw_set_field(crate::heap::GLOBALS, "cclosure".spec_bytes())
    }
}

impl State {
    /// Sets the globals that the library provides. The stack is left as
    /// it was.
    pub fn init_llua_global(&mut self)
        requires
            old(self).wf(),
            old(self)@.has_room(1),
        ensures
            final(self)@ == old(self)@.with_llua_globals(),
            final(self)@.stack == old(self)@.stack,
            final(self).wf(),
    {
        let psize: i64 = if usize::BITS == 32 {
            4
        } else {
            8
        };
        self.push_integer(psize);
        self.set_global("__llua_psize".as_bytes());
        proof {
            assert(self@.stack =~= old(self)@.stack);
        }
        self.push_fn(TOPOINTER_ENTRY);
        self.set_global("topointer".as_bytes());
        proof {
            assert(self@.stack =~= old(self)@.stack);
        }
        self.push_fn(CCLOSURE_ENTRY);
        self.set_global("cclosure".as_bytes());
        proof {
            assert(self@.stack =~= old(self)@.stack);
        }
    }
}

} // verus!
