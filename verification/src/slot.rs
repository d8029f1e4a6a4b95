//! What one cell of the interpreter's value stack holds.

use vstd::prelude::*;
use crate::status::Type;

verus! {

/// One interpreter value as a stack cell holds it. Primitive values are
/// held directly; strings, tables, functions, opaque objects and threads
/// are held by the handle of the object in the interpreter's heap.
#[derive(Clone, Copy, Debug, PartialEq, Eq, Structural)]
pub enum Slot {
    Nil,
    Bool(bool),
    /// An integer of the interpreter's native width.
    Int(i64),
    /// A floating-point number, held by its IEEE-754 binary64 bits.
    Num(u64),
    /// An interned byte string, by its handle.
    Str(usize),
    /// A raw host address.
    LightUserdata(usize),
    Table(usize),
    Function(usize),
    Userdata(usize),
    Thread(usize),
}

impl Slot {
    /// The classification of an occupied cell.
    pub open spec fn spec_type_of(self) -> Type {
        match self {
            Slot::Nil => Type::Nil,
            Slot::Bool(_) => Type::Boolean,
            Slot::Int(_) => Type::Number,
            Slot::Num(_) => Type::Number,
            Slot::Str(_) => Type::String,
            Slot::LightUserdata(_) => Type::LightUserdata,
            Slot::Table(_) => Type::Table,
            Slot::Function(_) => Type::Function,
            Slot::Userdata(_) => Type::Userdata,
            Slot::Thread(_) => Type::Thread,
        }
    }

    /// The classification of an occupied cell.
    pub fn type_of(self) -> (t: Type)
        ensures
            t == self.spec_type_of(),
    {
        match self {
            Slot::Nil => Type::Nil,
            Slot::Bool(_) => Type::Boolean,
            Slot::Int(_) => Type::Number,
            Slot::Num(_) => Type::Number,
            Slot::Str(_) => Type::String,
            Slot::LightUserdata(_) => Type::LightUserdata,
            Slot::Table(_) => Type::Table,
            Slot::Function(_) => Type::Function,
            Slot::Userdata(_) => Type::Userdata,
            Slot::Thread(_) => Type::Thread,
        }
    }

    /// Truthiness: everything but nil and `false` counts as true.
    pub open spec fn spec_truthy(self) -> bool {
        self != Slot::Nil && self != Slot::Bool(false)
    }

    /// Truthiness: everything but nil and `false` counts as true.
    pub fn truthy(self) -> (b: bool)
        ensures
            b == self.spec_truthy(),
    {
        match self {
            Slot::Nil => false,
            Slot::Bool(b) => b,
            _ => true,
        }
    }

    /// Whether the cell is nil.
    pub fn is_nil(self) -> (b: bool)
        ensures
            b == (self == Slot::Nil),
    {
        matches!(self, Slot::Nil)
    }
}

/// The classification of a cell that may be absent.
pub open spec fn type_of_opt(s: Option<Slot>) -> Type {
    match s {
        Some(v) => v.spec_type_of(),
        None => Type::NoValue,
    }
}

} // verus!
