//! One execution context of the interpreter: a value stack, the upvalues
//! of the native function that is running, and the heap that all contexts
//! of one interpreter share.
//!
//! The context keeps to what a host can see through the stack. Where a
//! number is asked for, a string that is an integer numeral is read as
//! that integer; a numeral with a fraction or an exponent, or a decimal
//! one too large for an integer, is left to the interpreter's reader of
//! floating-point numerals and is no number here. A number is never read
//! as a string. Nothing is ever collected, so that a handle stays valid
//! for as long as the heap lives.

use vstd::prelude::*;
use crate::heap::{Heap, HeapView, REGISTRY, GLOBALS};
use crate::numeral::{numeral, spec_numeral};
use crate::number::{is_nan, is_zero, spec_is_nan, spec_is_zero, spec_to_integer, to_integer};
use crate::slot::{Slot, type_of_opt};
use crate::stack::{
    Index, Stack, MAX_STACK, MAX_UPVALUES, REGISTRY_INDEX, spec_abs_index, spec_position,
    spec_resized, spec_rotated,
};
use crate::status::Type;

verus! {

/// The mathematical content of an execution context.
pub struct StateView {
    /// The value stack, bottom first.
    pub stack: Seq<Slot>,
    /// The upvalues of the native function that is running.
    pub upvalues: Seq<Slot>,
    /// The handle of the thread that this context is; 0 is the main thread.
    pub thread: usize,
    /// The heap.
    pub heap: HeapView,
}

impl StateView {
    /// The context of a fresh interpreter.
    pub open spec fn initial() -> StateView {
        StateView {
            stack: Seq::empty(),
            upvalues: Seq::empty(),
            thread: 0,
            heap: HeapView::initial(),
        }
    }

    /// The context is well formed: the stack is within its limit, the heap
    /// holds the registry and the globals, and the running function has no
    /// more upvalues than a closure can carry.
    pub open spec fn wf(self) -> bool {
        &&& self.stack.len() <= MAX_STACK
        &&& self.heap.wf()
        &&& self.upvalues.len() <= MAX_UPVALUES
    }

    /// The height of the stack.
    pub open spec fn top(self) -> int {
        self.stack.len() as int
    }

    /// The absolute form of `idx`.
    pub open spec fn abs_index(self, idx: int) -> int {
        spec_abs_index(self.top(), idx)
    }

    /// The value that `idx` refers to: a cell of the stack, the registry,
    /// or an upvalue of the running function. `None` where it refers to
    /// nothing.
    pub open spec fn slot_at(self, idx: int) -> Option<Slot> {
        if idx == REGISTRY_INDEX {
            Some(Slot::Table(REGISTRY))
        } else if idx < REGISTRY_INDEX {
            let n = REGISTRY_INDEX - idx;
            if n <= self.upvalues.len() {
                Some(self.upvalues[n - 1])
            } else {
                None
            }
        } else {
            match spec_position(self.top(), idx) {
                Some(p) => Some(self.stack[p]),
                None => None,
            }
        }
    }

    /// The value that `idx` refers to, nil where it refers to nothing.
    pub open spec fn value_at(self, idx: int) -> Slot {
        match self.slot_at(idx) {
            Some(v) => v,
            None => Slot::Nil,
        }
    }

    /// The classification of what `idx` refers to.
    pub open spec fn type_at(self, idx: int) -> Type {
        type_of_opt(self.slot_at(idx))
    }

    /// The zero-based stack position that `idx` names, if any.
    pub open spec fn position(self, idx: int) -> Option<int> {
        spec_position(self.top(), idx)
    }

    /// Whether `idx` names a cell of the stack.
    pub open spec fn in_stack(self, idx: int) -> bool {
        spec_position(self.top(), idx).is_some()
    }

    /// Whether `n` more cells can be pushed.
    pub open spec fn has_room(self, n: int) -> bool {
        self.stack.len() + n <= MAX_STACK
    }

    /// The context with another stack.
    pub open spec fn with_stack(self, stack: Seq<Slot>) -> StateView {
        StateView { stack, ..self }
    }

    /// The context with another heap.
    pub open spec fn with_heap(self, heap: HeapView) -> StateView {
        StateView { heap, ..self }
    }

    /// The context after pushing `v`.
    pub open spec fn pushed(self, v: Slot) -> StateView {
        self.with_stack(self.stack.push(v))
    }

    /// The context after dropping the top `n` cells.
    pub open spec fn popped(self, n: int) -> StateView {
        self.with_stack(self.stack.subrange(0, self.stack.len() - n))
    }

    /// The cell `n` places below the top (0 is the top itself).
    pub open spec fn peek(self, n: int) -> Slot {
        self.stack[self.stack.len() - 1 - n]
    }

    /// The context after pushing the byte string `b`.
    pub open spec fn pushed_bytes(self, b: Seq<u8>) -> StateView {
        StateView {
            stack: self.stack.push(Slot::Str(self.heap.intern_id(b) as usize)),
            heap: self.heap.intern(b),
            ..self
        }
    }

    /// Whether this context can have come from `old` by pushing values and
    /// creating objects: the cells of `old` are still there, the running
    /// function and the thread are the same, and every handle of `old`
    /// still names an object of its kind.
    pub open spec fn extends(self, old: StateView) -> bool {
        &&& old.stack.len() <= self.stack.len()
        &&& self.stack.subrange(0, old.stack.len() as int) == old.stack
        &&& self.upvalues == old.upvalues
        &&& self.thread == old.thread
        &&& self.heap.extends(old.heap)
    }

    /// The bytes of the string that `idx` refers to, if it refers to one.
    pub open spec fn bytes_at(self, idx: int) -> Option<Seq<u8>> {
        match self.slot_at(idx) {
            Some(Slot::Str(id)) => self.heap.string(id),
            _ => None,
        }
    }

    /// The integer that the string at `idx` stands for, if `idx` refers
    /// to a string that is an integer numeral.
    pub open spec fn numeral_at(self, idx: int) -> Option<i64> {
        match self.bytes_at(idx) {
            Some(b) => spec_numeral(b),
            None => None,
        }
    }
}

/// Whether two values are equal as the interpreter sees it: numbers are
/// equal where they are the same number, whether held as integers or as
/// floats, and a NaN equals nothing; everything else is equal to itself
/// only.
pub open spec fn spec_raw_equal(a: Slot, b: Slot) -> bool {
    match (a, b) {
        (Slot::Int(x), Slot::Num(y)) => spec_to_integer(y) == Some(x),
        (Slot::Num(x), Slot::Int(y)) => spec_to_integer(x) == Some(y),
        (Slot::Num(x), Slot::Num(y)) => !spec_is_nan(x) && !spec_is_nan(y) && (x == y || (
            spec_is_zero(x) && spec_is_zero(y))),
        _ => a == b,
    }
}

/// Whether two values are equal as the interpreter sees it.
pub fn slots_equal(a: Slot, b: Slot) -> (r: bool)
    ensures
        r == spec_raw_equal(a, b),
{
    match (a, b) {
        (Slot::Int(x), Slot::Num(y)) => to_integer(y) == Some(x),
        (Slot::Num(x), Slot::Int(y)) => to_integer(x) == Some(y),
        (Slot::Num(x), Slot::Num(y)) => !is_nan(x) && !is_nan(y) && (x == y || (is_zero(x)
            && is_zero(y))),
        _ => a == b,
    }
}

/// One execution context of the interpreter.
pub struct State {
    /// The value stack.
    pub stack: Stack,
    /// The upvalues of the native function that is running.
    pub upvalues: Vec<Slot>,
    /// The handle of the thread that this context is.
    pub thread: usize,
    /// The heap.
    pub heap: Heap,
}

impl View for State {
    type V = StateView;

    open spec fn view(&self) -> StateView {
        StateView {
            stack: self.stack@,
            upvalues: self.upvalues@,
            thread: self.thread,
            heap: self.heap@,
        }
    }
}

impl State {
    /// The context is well formed: the stack is within its limit, the heap
    /// holds the registry and the globals, and the running function has no
    /// more upvalues than a closure can carry.
    pub open spec fn wf(&self) -> bool {
        self@.wf()
    }

    /// The main context of a fresh interpreter, with no library opened.
    pub fn new() -> (s: State)
        ensures
            s@ == StateView::initial(),
            s.wf(),
    {
        State { stack: Stack::new(), upvalues: Vec::new(), thread: 0, heap: Heap::new() }
    }

    /// The handle of the thread that this context is. It identifies the
    /// context the way its address identifies a native one.
    pub fn as_ptr(&self) -> (p: usize)
        ensures
            p == self@.thread,
    {
        self.thread
    }

    //=======================================================================
    // Basic stack manipulation
    //=======================================================================
    /// Converts an index into its absolute form.
    pub fn abs_index(&self, idx: Index) -> (r: Index)
        requires
            self.wf(),
        ensures
            r == self@.abs_index(idx as int),
    {
        self.stack.abs_index(idx)
    }

    /// The height of the stack, which is the index of its top cell.
    pub fn get_top(&self) -> (top: Index)
        requires
            self.wf(),
        ensures
            top == self@.top(),
    {
        self.stack.get_top()
    }

    /// Sets the height of the stack: a non-negative `index` is the new
    /// height, a negative one names the cell that becomes the top.
    pub fn set_top(&mut self, index: Index)
        requires
            old(self).wf(),
            index <= MAX_STACK,
            index < 0 ==> -(index + 1) <= old(self)@.top(),
        ensures
            final(self)@ == old(self)@.with_stack(
                spec_resized(
                    old(self)@.stack,
                    if index >= 0 {
                        index as int
                    } else {
                        old(self)@.top() + index + 1
                    },
                ),
            ),
            final(self).wf(),
    {
        self.stack.set_top(index);
    }

    /// Drops the top `n` cells.
    pub fn pop(&mut self, n: i32)
        requires
            old(self).wf(),
            0 <= n <= old(self)@.top(),
        ensures
            final(self)@ == old(self)@.popped(n as int),
            final(self).wf(),
    {
        self.stack.pop(n);
    }

    /// Whether the stack can grow by `extra` cells.
    pub fn check_stack(&self, extra: i32) -> (r: bool)
        requires
            self.wf(),
        ensures
            r == (extra >= 0 ==> self@.has_room(extra as int)),
    {
        self.stack.check_stack(extra)
    }

    /// Reads what an index refers to.
    pub fn slot(&self, idx: Index) -> (r: Option<Slot>)
        requires
            self.wf(),
        ensures
            r == self@.slot_at(idx as int),
    {
        if idx == REGISTRY_INDEX {
            Some(Slot::Table(REGISTRY))
        } else if idx < REGISTRY_INDEX {
            let n: i64 = REGISTRY_INDEX as i64 - idx as i64;
            if n <= self.upvalues.len() as i64 {
                Some(self.upvalues[(n - 1) as usize])
            } else {
                None
            }
        } else {
            self.stack.get(idx)
        }
    }

    /// Pushes a raw cell.
    pub fn push_slot(&mut self, v: Slot)
        requires
            old(self).wf(),
            old(self)@.has_room(1),
        ensures
            final(self)@ == old(self)@.pushed(v),
            final(self).wf(),
    {
        self.stack.push(v);
    }

    /// Pushes a copy of what `index` refers to; nil where it refers to
    /// nothing.
    pub fn push_value(&mut self, index: Index)
        requires
            old(self).wf(),
            old(self)@.has_room(1),
        ensures
            final(self)@ == old(self)@.pushed(old(self)@.value_at(index as int)),
            final(self).wf(),
    {
        let v = match self.slot(index) {
            Some(v) => v,
            None => Slot::Nil,
        };
        self.stack.push(v);
    }

    /// Rotates the cells from `idx` up to the top by `n` places towards
    /// the top, or by `-n` places towards the bottom when `n` is negative.
    pub fn rotate(&mut self, idx: Index, n: i32)
        requires
            old(self).wf(),
            old(self)@.in_stack(idx as int),
            -(old(self)@.top() - old(self)@.position(idx as int).unwrap()) <= n <= old(self)@.top()
                - old(self)@.position(idx as int).unwrap(),
        ensures
            final(self)@ == old(self)@.with_stack(
                spec_rotated(
                    old(self)@.stack,
                    old(self)@.position(idx as int).unwrap(),
                    n as int,
                ),
            ),
            final(self).wf(),
    {
        self.stack.rotate(idx, n);
    }

    /// Moves the top cell to `idx`, shifting the cells from `idx` up.
    pub fn insert(&mut self, idx: Index)
        requires
            old(self).wf(),
            old(self)@.in_stack(idx as int),
        ensures
            final(self)@ == old(self)@.with_stack(
                old(self)@.stack.drop_last().insert(
                    old(self)@.position(idx as int).unwrap(),
                    old(self)@.stack.last(),
                ),
            ),
            final(self).wf(),
    {
        self.stack.rotate(idx, 1);
        proof {
            let s = old(self)@.stack;
            let p = old(self)@.position(idx as int).unwrap();
            assert(spec_rotated(s, p, 1) =~= s.drop_last().insert(p, s.last()));
        }
    }

    /// Removes the cell at `idx`, shifting down the cells above it.
    pub fn remove(&mut self, idx: Index)
        requires
            old(self).wf(),
            old(self)@.in_stack(idx as int),
        ensures
            final(self)@ == old(self)@.with_stack(
                old(self)@.stack.remove(old(self)@.position(idx as int).unwrap()),
            ),
            final(self).wf(),
    {
        self.stack.rotate(idx, -1);
        self.stack.pop(1);
        proof {
            let s = old(self)@.stack;
            let p = old(self)@.position(idx as int).unwrap();
            assert(spec_rotated(s, p, -1).subrange(0, s.len() - 1) =~= s.remove(p));
        }
    }

    /// Copies the cell at `from_idx` over the cell at `to_idx`.
    pub fn copy(&mut self, from_idx: Index, to_idx: Index)
        requires
            old(self).wf(),
            old(self)@.in_stack(to_idx as int),
        ensures
            final(self)@ == old(self)@.with_stack(
                old(self)@.stack.update(
                    old(self)@.position(to_idx as int).unwrap(),
                    old(self)@.value_at(from_idx as int),
                ),
            ),
            final(self).wf(),
    {
        let v = match self.slot(from_idx) {
            Some(v) => v,
            None => Slot::Nil,
        };
        self.stack.set(to_idx, v);
    }

    /// Moves the top cell over the cell at `idx` and pops it.
    pub fn replace(&mut self, idx: Index)
        requires
            old(self).wf(),
            old(self)@.in_stack(idx as int),
        ensures
            final(self)@ == old(self)@.with_stack(
                old(self)@.stack.update(
                    old(self)@.position(idx as int).unwrap(),
                    old(self)@.stack.last(),
                ).drop_last(),
            ),
            final(self).wf(),
    {
        let v = self.stack.get(-1).unwrap();
        self.stack.set(idx, v);
        self.stack.pop(1);
    }

    //=======================================================================
    // Access functions (stack -> host)
    //=======================================================================
    /// The classification of what `index` refers to. Never fails.
    pub fn type_of(&self, index: Index) -> (t: Type)
        requires
            self.wf(),
        ensures
            t == self@.type_at(index as int),
    {
        match self.slot(index) {
            Some(v) => v.type_of(),
            None => Type::NoValue,
        }
    }

    /// Whether `index` refers to nothing at all.
    pub fn is_none(&self, index: Index) -> (r: bool)
        requires
            self.wf(),
        ensures
            r == self@.slot_at(index as int).is_none(),
    {
        self.slot(index).is_none()
    }

    /// Whether `index` refers to nil.
    pub fn is_nil(&self, index: Index) -> (r: bool)
        requires
            self.wf(),
        ensures
            r == (self@.slot_at(index as int) == Some(Slot::Nil)),
    {
        matches!(self.slot(index), Some(Slot::Nil))
    }

    /// Whether `index` refers to nothing or to nil.
    pub fn is_none_or_nil(&self, index: Index) -> (r: bool)
        requires
            self.wf(),
        ensures
            r == (self@.value_at(index as int) == Slot::Nil),
    {
        matches!(self.slot(index), None | Some(Slot::Nil))
    }

    /// Whether `index` refers to a boolean.
    pub fn is_bool(&self, index: Index) -> (r: bool)
        requires
            self.wf(),
        ensures
            r == (self@.type_at(index as int) == Type::Boolean),
    {
        matches!(self.slot(index), Some(Slot::Bool(_)))
    }

    /// Whether `index` refers to a number that is held as an integer.
    pub fn is_integer(&self, index: Index) -> (r: bool)
        requires
            self.wf(),
        ensures
            r == (self@.slot_at(index as int) matches Some(Slot::Int(_))),
    {
        matches!(self.slot(index), Some(Slot::Int(_)))
    }

    /// Whether `index` refers to a number, integer or not, or to a string
    /// that is read as one.
    pub fn is_number(&self, index: Index) -> (r: bool)
        requires
            self.wf(),
        ensures
            r == (self@.type_at(index as int) == Type::Number || self@.numeral_at(
                index as int,
            ).is_some()),
    {
        match self.slot(index) {
            Some(Slot::Int(_)) | Some(Slot::Num(_)) => true,
            Some(Slot::Str(_)) => self.numeral(index).is_some(),
            _ => false,
        }
    }

    /// The integer that the string at `index` stands for, if `index`
    /// refers to a string that is an integer numeral.
    pub fn numeral(&self, index: Index) -> (r: Option<i64>)
        requires
            self.wf(),
        ensures
            r == self@.numeral_at(index as int),
    {
        match self.slot(index) {
            Some(Slot::Str(id)) => match self.heap.string(id) {
                Some(b) => numeral(b.as_slice()),
                None => None,
            },
            _ => None,
        }
    }

    /// Whether `index` refers to a string.
    pub fn is_string(&self, index: Index) -> (r: bool)
        requires
            self.wf(),
        ensures
            r == (self@.type_at(index as int) == Type::String),
    {
        matches!(self.slot(index), Some(Slot::Str(_)))
    }

    /// Whether `index` refers to a table.
    pub fn is_table(&self, index: Index) -> (r: bool)
        requires
            self.wf(),
        ensures
            r == (self@.type_at(index as int) == Type::Table),
    {
        matches!(self.slot(index), Some(Slot::Table(_)))
    }

    /// Whether `index` refers to a function.
    pub fn is_function(&self, index: Index) -> (r: bool)
        requires
            self.wf(),
        ensures
            r == (self@.type_at(index as int) == Type::Function),
    {
        matches!(self.slot(index), Some(Slot::Function(_)))
    }

    /// Whether `index` refers to a raw host address.
    pub fn is_light_userdata(&self, index: Index) -> (r: bool)
        requires
            self.wf(),
        ensures
            r == (self@.type_at(index as int) == Type::LightUserdata),
    {
        matches!(self.slot(index), Some(Slot::LightUserdata(_)))
    }

    /// Whether `index` refers to an opaque object or a raw host address.
    pub fn is_userdata(&self, index: Index) -> (r: bool)
        requires
            self.wf(),
        ensures
            r == (self@.type_at(index as int) == Type::Userdata || self@.type_at(index as int)
                == Type::LightUserdata),
    {
        matches!(self.slot(index), Some(Slot::Userdata(_)) | Some(Slot::LightUserdata(_)))
    }

    /// Whether `index` refers to a thread.
    pub fn is_thread(&self, index: Index) -> (r: bool)
        requires
            self.wf(),
        ensures
            r == (self@.type_at(index as int) == Type::Thread),
    {
        matches!(self.slot(index), Some(Slot::Thread(_)))
    }

    /// The truth value of what `index` refers to: false for nothing, nil
    /// and `false`, true for everything else.
    pub fn to_bool(&self, index: Index) -> (b: bool)
        requires
            self.wf(),
        ensures
            b == self@.value_at(index as int).spec_truthy(),
    {
        match self.slot(index) {
            Some(v) => v.truthy(),
            None => false,
        }
    }

    /// The bytes of the string that `index` refers to; `None` where it
    /// refers to anything else.
    pub fn to_bytes(&self, index: Index) -> (r: Option<&Vec<u8>>)
        requires
            self.wf(),
        ensures
            match r {
                Some(v) => self@.bytes_at(index as int) == Some(v@),
                None => self@.bytes_at(index as int).is_none(),
            },
    {
        match self.slot(index) {
            Some(Slot::Str(id)) => self.heap.string(id),
            _ => None,
        }
    }

    /// The raw host address that `index` refers to, directly or through an
    /// opaque object; `None` for anything else.
    pub fn to_userdata(&self, index: Index) -> (r: Option<usize>)
        requires
            self.wf(),
        ensures
            r == match self@.slot_at(index as int) {
                Some(Slot::LightUserdata(p)) => Some(p),
                Some(Slot::Userdata(id)) => match self@.heap.get_userdata(id) {
                    Some(u) => Some(u.target),
                    None => None,
                },
                _ => None,
            },
    {
        match self.slot(index) {
            Some(Slot::LightUserdata(p)) => Some(p),
            Some(Slot::Userdata(id)) => match self.heap.get_userdata(id) {
                Some(u) => Some(u.target),
                None => None,
            },
            _ => None,
        }
    }

    /// The thread that `index` refers to, if it refers to one.
    pub fn to_thread(&self, index: Index) -> (r: Option<usize>)
        requires
            self.wf(),
        ensures
            r == match self@.slot_at(index as int) {
                Some(Slot::Thread(t)) => Some(t),
                _ => None,
            },
    {
        match self.slot(index) {
            Some(Slot::Thread(t)) => Some(t),
            _ => None,
        }
    }

    /// The entry point of the native function that `index` refers to, if
    /// it refers to one.
    pub fn to_native_fn(&self, index: Index) -> (r: Option<usize>)
        requires
            self.wf(),
        ensures
            r == match self@.slot_at(index as int) {
                Some(Slot::Function(f)) => match self@.heap.get_closure(f) {
                    Some(c) => Some(c.entry),
                    None => None,
                },
                _ => None,
            },
    {
        match self.slot(index) {
            Some(Slot::Function(f)) => self.heap.closure_entry(f),
            _ => None,
        }
    }

    /// Whether two indices refer to equal values, without consulting
    /// metamethods. False where either refers to nothing.
    pub fn raw_equal(&self, idx1: Index, idx2: Index) -> (r: bool)
        requires
            self.wf(),
        ensures
            r == match (self@.slot_at(idx1 as int), self@.slot_at(idx2 as int)) {
                (Some(a), Some(b)) => spec_raw_equal(a, b),
                _ => false,
            },
    {
        match (self.slot(idx1), self.slot(idx2)) {
            (Some(a), Some(b)) => slots_equal(a, b),
            _ => false,
        }
    }

    //=======================================================================
    // Push functions (host -> stack)
    //=======================================================================
    /// Pushes nil.
    pub fn push_nil(&mut self)
        requires
            old(self).wf(),
            old(self)@.has_room(1),
        ensures
            final(self)@ == old(self)@.pushed(Slot::Nil),
            final(self).wf(),
    {
        self.stack.push(Slot::Nil);
    }

    /// Pushes a boolean.
    pub fn push_bool(&mut self, b: bool)
        requires
            old(self).wf(),
            old(self)@.has_room(1),
        ensures
            final(self)@ == old(self)@.pushed(Slot::Bool(b)),
            final(self).wf(),
    {
        self.stack.push(Slot::Bool(b));
    }

    /// Pushes an integer.
    pub fn push_integer(&mut self, i: i64)
        requires
            old(self).wf(),
            old(self)@.has_room(1),
        ensures
            final(self)@ == old(self)@.pushed(Slot::Int(i)),
            final(self).wf(),
    {
        self.stack.push(Slot::Int(i));
    }

    /// Pushes a floating-point number, given by its binary64 bits.
    pub fn push_number(&mut self, bits: u64)
        requires
            old(self).wf(),
            old(self)@.has_room(1),
        ensures
            final(self)@ == old(self)@.pushed(Slot::Num(bits)),
            final(self).wf(),
    {
        self.stack.push(Slot::Num(bits));
    }

    /// Pushes a byte string, which may hold any bytes.
    pub fn push_bytes(&mut self, s: &[u8])
        requires
            old(self).wf(),
            old(self)@.has_room(1),
        ensures
            final(self)@ == old(self)@.pushed_bytes(s@),
            final(self)@.bytes_at(-1) == Some(s@),
            final(self).wf(),
    {
        let id = self.heap.intern(s);
        self.stack.push(Slot::Str(id));
    }

    /// Pushes a string.
    pub fn push_string(&mut self, s: &[u8])
        requires
            old(self).wf(),
            old(self)@.has_room(1),
        ensures
            final(self)@ == old(self)@.pushed_bytes(s@),
            final(self)@.bytes_at(-1) == Some(s@),
            final(self).wf(),
    {
        self.push_bytes(s);
    }

    /// Pushes a raw host address.
    pub fn push_light_userdata(&mut self, ud: usize)
        requires
            old(self).wf(),
            old(self)@.has_room(1),
        ensures
            final(self)@ == old(self)@.pushed(Slot::LightUserdata(ud)),
            final(self).wf(),
    {
        self.stack.push(Slot::LightUserdata(ud));
    }

    /// Pushes the thread that this context is. Returns whether it is a
    /// thread other than the main one.
    pub fn push_thread(&mut self) -> (r: bool)
        requires
            old(self).wf(),
            old(self)@.has_room(1),
        ensures
            final(self)@ == old(self)@.pushed(Slot::Thread(old(self)@.thread)),
            r == (old(self)@.thread != 0),
            final(self).wf(),
    {
        self.stack.push(Slot::Thread(self.thread));
        self.thread != 0
    }

    /// Pushes the table of globals.
    pub fn push_global_table(&mut self)
        requires
            old(self).wf(),
            old(self)@.has_room(1),
        ensures
            final(self)@ == old(self)@.pushed(Slot::Table(GLOBALS)),
            final(self).wf(),
    {
        self.stack.push(Slot::Table(GLOBALS));
    }
}

} // verus!
