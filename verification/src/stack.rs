//! The value stack of one execution context and its index arithmetic.
//!
//! Positions are addressed the interpreter's way: positive indices count
//! from the bottom starting at 1, negative indices count from the top
//! starting at -1, and indices at or below [`REGISTRY_INDEX`] are
//! pseudo-indices that name no stack cell.

use vstd::prelude::*;
use crate::slot::Slot;

verus! {

/// A position in a value stack, or a pseudo-index.
pub type Index = i32;

/// The largest number of cells a stack may ever hold.
pub const MAX_STACK: usize = 1_000_000;

/// The pseudo-index of the registry table.
pub const REGISTRY_INDEX: i32 = -1_001_000;

/// The largest number of upvalues a native closure may carry.
pub const MAX_UPVALUES: i32 = 255;

/// The number of free cells that a native function may count on.
pub const MIN_STACK: i32 = 20;

/// Requesting this many results means "all of them".
pub const MULTRET: i32 = -1;

/// The pseudo-index of the `i`-th upvalue of the running function.
pub open spec fn spec_upvalue_index(i: int) -> int {
    REGISTRY_INDEX - i
}

/// The pseudo-index of the `i`-th upvalue of the running function.
pub fn upvalue_index(i: i32) -> (r: i32)
    requires
        0 <= i <= MAX_UPVALUES,
    ensures
        r == spec_upvalue_index(i as int),
{
    REGISTRY_INDEX - i
}

/// Whether `idx` is a pseudo-index.
pub open spec fn spec_is_pseudo(idx: int) -> bool {
    idx <= REGISTRY_INDEX
}

/// Whether `idx` is a pseudo-index.
pub fn is_pseudo(idx: i32) -> (r: bool)
    ensures
        r == spec_is_pseudo(idx as int),
{
    idx <= REGISTRY_INDEX
}

/// The absolute form of `idx` on a stack of height `top`: positive and
/// pseudo-indices stand for themselves, the others count down from the top.
pub open spec fn spec_abs_index(top: int, idx: int) -> int {
    if idx > 0 || idx <= REGISTRY_INDEX {
        idx
    } else {
        top + idx + 1
    }
}

/// The zero-based position that `idx` names on a stack of height `top`,
/// if it names a cell of the stack.
pub open spec fn spec_position(top: int, idx: int) -> Option<int> {
    let a = spec_abs_index(top, idx);
    if 1 <= a <= top {
        Some(a - 1)
    } else {
        None
    }
}

/// What `set_top` leaves: the first `n` cells, with nil where the old
/// stack was shorter.
pub open spec fn spec_resized(s: Seq<Slot>, n: int) -> Seq<Slot> {
    Seq::new(
        n as nat,
        |i: int|
            if i < s.len() {
                s[i]
            } else {
                Slot::Nil
            },
    )
}

/// The cells of `s` from position `p` up, rotated by `n` places towards
/// the top (`n >= 0`) or by `-n` places towards the bottom (`n < 0`);
/// the cells below `p` stay.
pub open spec fn spec_rotated(s: Seq<Slot>, p: int, n: int) -> Seq<Slot> {
    let seg = s.subrange(p, s.len() as int);
    let k = if n >= 0 {
        seg.len() - n
    } else {
        -n
    };
    s.subrange(0, p) + seg.subrange(k, seg.len() as int) + seg.subrange(0, k)
}

/// The value stack of one execution context.
pub struct Stack {
    slots: Vec<Slot>,
}

impl View for Stack {
    type V = Seq<Slot>;

    closed spec fn view(&self) -> Seq<Slot> {
        self.slots@
    }
}

impl Stack {
    /// The stack never outgrows [`MAX_STACK`].
    pub open spec fn wf(&self) -> bool {
        self@.len() <= MAX_STACK
    }

    /// Whether `n` more cells can be pushed.
    pub open spec fn has_room(&self, n: int) -> bool {
        self@.len() + n <= MAX_STACK
    }

    /// The cell that the stack index `idx` names, if any.
    pub open spec fn spec_get(&self, idx: int) -> Option<Slot> {
        match spec_position(self@.len() as int, idx) {
            Some(p) => Some(self@[p]),
            None => None,
        }
    }

    /// An empty stack.
    pub fn new() -> (s: Stack)
        ensures
            s@ == Seq::<Slot>::empty(),
            s.wf(),
    {
        Stack { slots: Vec::new() }
    }

    /// The number of cells, which is also the index of the top cell.
    pub fn get_top(&self) -> (top: i32)
        requires
            self.wf(),
        ensures
            top == self@.len(),
    {
        self.slots.len() as i32
    }

    /// Converts an index into its absolute form.
    pub fn abs_index(&self, idx: i32) -> (r: i32)
        requires
            self.wf(),
        ensures
            r == spec_abs_index(self@.len() as int, idx as int),
    {
        if idx > 0 || idx <= REGISTRY_INDEX {
            idx
        } else {
            self.slots.len() as i32 + idx + 1
        }
    }

    /// The zero-based position that `idx` names, if it names a cell.
    pub fn position(&self, idx: i32) -> (r: Option<usize>)
        requires
            self.wf(),
        ensures
            match r {
                Some(p) => spec_position(self@.len() as int, idx as int) == Some(p as int) && p
                    < self@.len(),
                None => spec_position(self@.len() as int, idx as int).is_none(),
            },
    {
        let a: i32 = self.abs_index(idx);
        if 1 <= a && a as usize <= self.slots.len() {
            Some((a - 1) as usize)
        } else {
            None
        }
    }

    /// Whether `n` more cells can be pushed.
    pub fn check_stack(&self, n: i32) -> (r: bool)
        requires
            self.wf(),
        ensures
            r == (n >= 0 ==> self.has_room(n as int)),
    {
        n < 0 || n as usize <= MAX_STACK - self.slots.len()
    }

    /// Reads the cell at a stack index.
    pub fn get(&self, idx: i32) -> (r: Option<Slot>)
        requires
            self.wf(),
        ensures
            r == self.spec_get(idx as int),
    {
        match self.position(idx) {
            Some(p) => Some(self.slots[p]),
            None => None,
        }
    }

    /// Pushes one cell.
    pub fn push(&mut self, v: Slot)
        requires
            old(self).wf(),
            old(self).has_room(1),
        ensures
            final(self)@ == old(self)@.push(v),
            final(self).wf(),
    {
        self.slots.push(v);
    }

    /// Sets the height of the stack: a non-negative `idx` is the new
    /// height, a negative one names the cell that becomes the top. Cells
    /// above are dropped; a taller stack is filled with nil.
    pub fn set_top(&mut self, idx: i32)
        requires
            old(self).wf(),
            idx <= MAX_STACK,
            idx < 0 ==> -(idx + 1) <= old(self)@.len(),
        ensures
            final(self)@ == spec_resized(
                old(self)@,
                if idx >= 0 {
                    idx as int
                } else {
                    old(self)@.len() + idx + 1
                },
            ),
            final(self).wf(),
    {
        let n: usize = if idx >= 0 {
            idx as usize
        } else {
            (self.slots.len() as i32 + idx + 1) as usize
        };
        self.slots.resize(n, Slot::Nil);
        proof {
            assert(self.slots@ =~= spec_resized(old(self)@, n as int));
        }
    }

    /// Drops the top `n` cells.
    pub fn pop(&mut self, n: i32)
        requires
            old(self).wf(),
            0 <= n <= old(self)@.len(),
        ensures
            final(self)@ == old(self)@.subrange(0, old(self)@.len() - n),
            final(self).wf(),
    {
        let keep: usize = self.slots.len() - n as usize;
        self.slots.truncate(keep);
    }

    /// Takes the top `n` cells off the stack, bottom first.
    pub fn take_top(&mut self, n: i32) -> (r: Vec<Slot>)
        requires
            old(self).wf(),
            0 <= n <= old(self)@.len(),
        ensures
            r@ == old(self)@.subrange(old(self)@.len() - n, old(self)@.len() as int),
            final(self)@ == old(self)@.subrange(0, old(self)@.len() - n),
            final(self).wf(),
    {
        let keep: usize = self.slots.len() - n as usize;
        self.slots.split_off(keep)
    }

    /// Pushes the cells of `more`, first cell first.
    pub fn push_all(&mut self, more: Vec<Slot>)
        requires
            old(self).wf(),
            old(self)@.len() + more@.len() <= MAX_STACK,
        ensures
            final(self)@ == old(self)@ + more@,
            final(self).wf(),
    {
        let mut more = more;
        self.slots.append(&mut more);
    }

    /// Overwrites the cell at a stack index.
    pub fn set(&mut self, idx: i32, v: Slot)
        requires
            old(self).wf(),
            spec_position(old(self)@.len() as int, idx as int).is_some(),
        ensures
            final(self)@ == old(self)@.update(
                spec_position(old(self)@.len() as int, idx as int).unwrap(),
                v,
            ),
            final(self).wf(),
    {
        let p = self.position(idx).unwrap();
        self.slots[p] = v;
    }

    /// Rotates the cells from `idx` up to the top by `n` places towards
    /// the top, or by `-n` places towards the bottom when `n` is negative.
    pub fn rotate(&mut self, idx: i32, n: i32)
        requires
            old(self).wf(),
            spec_position(old(self)@.len() as int, idx as int).is_some(),
            -(old(self)@.len() - spec_position(old(self)@.len() as int, idx as int).unwrap()) <= n
                <= old(self)@.len() - spec_position(old(self)@.len() as int, idx as int).unwrap(),
        ensures
            final(self)@ == spec_rotated(
                old(self)@,
                spec_position(old(self)@.len() as int, idx as int).unwrap(),
                n as int,
            ),
            final(self)@.len() == old(self)@.len(),
            final(self).wf(),
    {
        let p = self.position(idx).unwrap();
        let mut seg = self.slots.split_off(p);
        let k: usize = if n >= 0 {
            seg.len() - n as usize
        } else {
            (-n) as usize
        };
        let mut upper = seg.split_off(k);
        self.slots.append(&mut upper);
        self.slots.append(&mut seg);
    }
}

} // verus!
