//! Diagnostics: the names of the interpreter's types and the errors
//! raised where a value does not have the type that was asked for.

use vstd::prelude::*;
use vstd::string::StringSliceAdditionalSpecFns;
use crate::convert::FromLua;
use crate::convert_multi::FromLuaMulti;
use crate::error::{text, Error, ErrorView};
use crate::heap::bytes_to_vec;
use crate::slot::{type_of_opt, Slot};
use crate::stack::Index;
use crate::state::{State, StateView};
use crate::status::Type;
use crate::text::{append, append_signed_decimal, append_str, spec_signed_decimal};

verus! {

/// The interpreter's name for a classification.
pub open spec fn spec_typename(tp: Type) -> Seq<u8> {
    match tp {
        Type::NoValue => "no value".spec_bytes(),
        Type::Nil => "nil".spec_bytes(),
        Type::Boolean => "boolean".spec_bytes(),
        Type::LightUserdata => "userdata".spec_bytes(),
        Type::Number => "number".spec_bytes(),
        Type::String => "string".spec_bytes(),
        Type::Table => "table".spec_bytes(),
        Type::Function => "function".spec_bytes(),
        Type::Userdata => "userdata".spec_bytes(),
        Type::Thread => "thread".spec_bytes(),
        Type::Invalid => "invalid".spec_bytes(),
    }
}

/// The message of an error about argument `arg`.
pub open spec fn spec_arg_error(arg: int, extramsg: Seq<u8>) -> Seq<u8> {
    "bad argument #".spec_bytes() + spec_signed_decimal(arg) + " (".spec_bytes() + extramsg
        + ")".spec_bytes()
}

/// What is said of an argument of the wrong type.
pub open spec fn spec_type_mismatch(expected: Seq<u8>, actual: Seq<u8>) -> Seq<u8> {
    expected + " expected, got ".spec_bytes() + actual
}

impl StateView {
    /// The field `name` of the metatable of `v`; nil where `v` has no
    /// metatable or the metatable has no such field.
    pub open spec fn metafield(self, v: Slot, name: Seq<u8>) -> Slot {
        match self.meta_of(v) {
            Some(m) => if self.heap.strings.contains(name) {
                self.heap.table_get(m, Slot::Str(self.heap.intern_id(name) as usize))
            } else {
                Slot::Nil
            },
            None => Slot::Nil,
        }
    }

    /// How a diagnostic names the type of what `idx` refers to: by the
    /// `__name` of its metatable where that is a string, as "light
    /// userdata" for a raw address, and by the name of its classification
    /// otherwise.
    pub open spec fn described_type(self, idx: int) -> Seq<u8> {
        match self.metafield(self.value_at(idx), "__name".spec_bytes()) {
            Slot::Str(id) if self.heap.string(id).is_some() => self.heap.string(id).unwrap(),
            _ => if self.type_at(idx) == Type::LightUserdata {
                "light userdata".spec_bytes()
            } else {
                spec_typename(self.type_at(idx))
            },
        }
    }

    /// The error raised where argument `arg` is not of the type named
    /// `tname`.
    pub open spec fn type_error(self, arg: int, tname: Seq<u8>) -> ErrorView {
        ErrorView::Runtime(
            spec_arg_error(arg, spec_type_mismatch(tname, self.described_type(arg))),
        )
    }
}

/// What is said of an argument of the wrong type: the type expected and
/// the type found.
pub fn type_mismatch(expected: &[u8], actual: &[u8]) -> (m: Vec<u8>)
    ensures
        m@ == spec_type_mismatch(expected@, actual@),
{
    let mut m: Vec<u8> = Vec::new();
    append(&mut m, expected);
    append_str(&mut m, " expected, got ");
    append(&mut m, actual);
    proof {
        assert(m@ =~= spec_type_mismatch(expected@, actual@));
    }
    m
}

/// The error raised for a bad argument: it cites the position of the
/// argument and says what is wrong with it.
pub fn arg_error(arg: Index, extramsg: &[u8]) -> (e: Error)
    ensures
        e@ == ErrorView::Runtime(spec_arg_error(arg as int, extramsg@)),
{
    let mut m: Vec<u8> = Vec::new();
    append_str(&mut m, "bad argument #");
    append_signed_decimal(&mut m, arg as i64);
    append_str(&mut m, " (");
    append(&mut m, extramsg);
    append_str(&mut m, ")");
    proof {
        assert(m@ =~= spec_arg_error(arg as int, extramsg@));
    }
    Error::Runtime(m)
}

impl State {
    /// The interpreter's name for a classification.
    pub fn typename_of(tp: Type) -> (n: Vec<u8>)
        ensures
            n@ == spec_typename(tp),
    {
        match tp {
            Type::NoValue => text("no value"),
            Type::Nil => text("nil"),
            Type::Boolean => text("boolean"),
            Type::LightUserdata => text("userdata"),
            Type::Number => text("number"),
            Type::String => text("string"),
            Type::Table => text("table"),
            Type::Function => text("function"),
            Type::Userdata => text("userdata"),
            Type::Thread => text("thread"),
            Type::Invalid => text("invalid"),
        }
    }

    /// The interpreter's name for the classification of what `n` refers
    /// to.
    pub fn typename_at(&self, n: Index) -> (r: Vec<u8>)
        requires
            self.wf(),
        ensures
            r@ == spec_typename(self@.type_at(n as int)),
    {
        Self::typename_of(self.type_of(n))
    }

    /// The field `name` of the metatable of what `obj` refers to; nil
    /// where there is no metatable or no such field.
    pub fn metafield(&self, obj: Index, name: &[u8]) -> (v: Slot)
        requires
            self.wf(),
        ensures
            v == self@.metafield(self@.value_at(obj as int), name@),
    {
        let meta = match self.slot(obj) {
            Some(Slot::Table(t)) => self.heap.table_meta(t),
            Some(Slot::Userdata(u)) => match self.heap.get_userdata(u) {
                Some(o) => o.meta,
                None => None,
            },
            _ => None,
        };
        match meta {
            Some(m) => match self.heap.find_string(name) {
                Some(id) => self.heap.table_get(m, Slot::Str(id)),
                None => Slot::Nil,
            },
            None => Slot::Nil,
        }
    }

    /// How a diagnostic names the type of what `idx` refers to.
    pub fn described_type(&self, idx: Index) -> (r: Vec<u8>)
        requires
            self.wf(),
        ensures
            r@ == self@.described_type(idx as int),
    {
        if let Slot::Str(id) = self.metafield(idx, "__name".as_bytes()) {
            if let Some(b) = self.heap.string(id) {
                return bytes_to_vec(b.as_slice());
            }
        }
        if self.is_light_userdata(idx) {
            text("light userdata")
        } else {
            self.typename_at(idx)
        }
    }

    /// The error raised for a bad argument.
    pub fn arg_error(&self, arg: Index, extramsg: &[u8]) -> (e: Error)
        ensures
            e@ == ErrorView::Runtime(spec_arg_error(arg as int, extramsg@)),
    {
        arg_error(arg, extramsg)
    }

    /// The error raised where argument `arg` is not of the type named
    /// `tname`: it cites the position, the expected type and the type
    /// that was found.
    pub fn type_error(&self, arg: Index, tname: &[u8]) -> (e: Error)
        requires
            self.wf(),
        ensures
            e@ == self@.type_error(arg as int, tname@),
    {
        let actual = self.described_type(arg);
        let m = type_mismatch(tname, actual.as_slice());
        arg_error(arg, m.as_slice())
    }

    /// Checks that argument `arg` has the classification `t`; a type
    /// error otherwise.
    pub fn check_type(&self, arg: Index, t: Type) -> (r: Result<(), Error>)
        requires
            self.wf(),
        ensures
            match r {
                Ok(()) => self@.type_at(arg as int) == t,
                Err(e) => self@.type_at(arg as int) != t && e@ == self@.type_error(
                    arg as int,
                    spec_typename(t),
                ),
            },
    {
        if self.type_of(arg) == t {
            Ok(())
        } else {
            let n = Self::typename_of(t);
            Err(self.type_error(arg, n.as_slice()))
        }
    }

    /// Checks that argument `arg` is there at all, whatever it is.
    pub fn check_any(&self, arg: Index) -> (r: Result<(), Error>)
        requires
            self.wf(),
        ensures
            match r {
                Ok(()) => self@.slot_at(arg as int).is_some(),
                Err(e) => self@.slot_at(arg as int).is_none() && e@ == ErrorView::Runtime(
                    spec_arg_error(arg as int, "value expected".spec_bytes()),
                ),
            },
    {
        if self.is_none(arg) {
            Err(arg_error(arg, "value expected".as_bytes()))
        } else {
            Ok(())
        }
    }

    /// Reads argument `i` as a host value, as native functions do for
    /// their arguments: where the cell does not hold a value of the type,
    /// the result is the type error to raise, which cites the position
    /// and the name of the expected type.
    pub fn check_arg<T: FromLua>(&self, i: Index) -> (r: Result<T, Error>)
        requires
            self.wf(),
        ensures
            match r {
                Ok(v) => T::spec_from_lua(self@, i as int) == Some(v.deep_view()),
                Err(e) => T::spec_from_lua(self@, i as int).is_none() && e@ == self@.type_error(
                    i as int,
                    T::spec_tname(),
                ),
            },
    {
        match T::from_lua(self, i) {
            Some(v) => Ok(v),
            None => {
                let n = T::tname();
                Err(self.type_error(i, n.as_slice()))
            },
        }
    }

    /// Reads the cells from `index` on as a multi-value; where they do not
    /// match, the result is the error to raise.
    pub fn args<T: FromLuaMulti>(&self, index: Index) -> (r: Result<T, Error>)
        requires
            self.wf(),
            index as int + T::spec_count() <= i32::MAX,
        ensures
            match r {
                Ok(v) => T::spec_from_lua_multi(self@, index as int) == Some(v.deep_view()),
                Err(e) => T::spec_from_lua_multi(self@, index as int).is_none() && e@
                    == ErrorView::Runtime("args not match".spec_bytes()),
            },
    {
        match T::from_lua(self, index) {
            Some(v) => Ok(v),
            None => Err(Error::runtime("args not match")),
        }
    }
}

} // verus!
