//! The multi-value conversion protocol: host values that stand for a
//! fixed number of consecutive cells of the stack, such as the arguments
//! and results of a native function.

use vstd::prelude::*;
use crate::convert::{FromLua, Pushed, ToLua, TopVal};
use crate::error::{Error, ErrorView};
use crate::heap::bytes_to_vec;
use crate::stack::Index;
use crate::state::{State, StateView};

verus! {

/// The number of free cells that pushing a multi-value may need.
pub const MULTI_ROOM: i32 = 40;

/// The largest number of cells that a multi-value stands for.
pub const MAX_COUNT: i32 = 13;

/// The text that describes a failure to the interpreter.
pub trait ErrorText {
    /// The describing text.
    spec fn spec_error_text(&self) -> Seq<u8>;

    /// The describing text.
    fn error_text(&self) -> (t: Vec<u8>)
        ensures
            t@ == self.spec_error_text(),
    ;
}

impl ErrorText for Vec<u8> {
    open spec fn spec_error_text(&self) -> Seq<u8> {
        self@
    }

    fn error_text(&self) -> (t: Vec<u8>) {
        bytes_to_vec(self.as_slice())
    }
}

impl ErrorText for Error {
    open spec fn spec_error_text(&self) -> Seq<u8> {
        self.spec_message()
    }

    fn error_text(&self) -> (t: Vec<u8>) {
        self.message()
    }
}

/// A host value that is handed to the interpreter as a number of values
/// on top of the stack.
pub trait ToLuaMulti: Sized {
    /// The text of the error that handing the value over raises, if it
    /// raises one.
    spec fn spec_raises(&self) -> Option<Seq<u8>>;

    /// What the value asks of the context that it is handed over in,
    /// beyond well-formedness and room on the stack.
    spec fn spec_pushable_multi(&self, pre: StateView) -> bool;

    /// The number of values handed over.
    spec fn spec_count(&self) -> int;

    /// The context after the value is handed over without an error.
    spec fn spec_pushed_multi(&self, pre: StateView) -> StateView;

    /// Handing over only adds: nothing that `pre` held is lost, and the
    /// stack grows by no more cells than a multi-value can stand for.
    proof fn lemma_pushed_multi(&self, pre: StateView)
        requires
            self.spec_pushable_multi(pre),
        ensures
            self.spec_pushed_multi(pre).extends(pre),
            self.spec_pushed_multi(pre).top() <= pre.top() + MAX_COUNT,
    ;

    /// Hands the value over. `Ok(n)` says that `n` values on top of the
    /// stack are the result. `Err` is an error to be raised in the
    /// interpreter: nothing was pushed, and the native function that is
    /// running is to return it.
    fn to_lua(self, s: &mut State) -> (r: Result<i32, Error>)
        requires
            old(s).wf(),
            old(s)@.has_room(MULTI_ROOM as int),
            self.spec_pushable_multi(old(s)@),
        ensures
            final(s).wf(),
            match r {
                Ok(n) => {
                    &&& self.spec_raises().is_none()
                    &&& n == self.spec_count()
                    &&& final(s)@ == self.spec_pushed_multi(old(s)@)
                },
                Err(e) => {
                    &&& self.spec_raises().is_some()
                    &&& e@ == ErrorView::Runtime(self.spec_raises().unwrap())
                    &&& final(s)@ == old(s)@
                },
            },
    ;

    /// Hands the value over, reporting a failure to the caller instead of
    /// raising it: the stack is then as it was.
    fn to_lua_result(self, s: &mut State) -> (r: Result<i32, Error>)
        requires
            old(s).wf(),
            old(s)@.has_room(MULTI_ROOM as int),
            self.spec_pushable_multi(old(s)@),
        ensures
            final(s).wf(),
            match r {
                Ok(n) => {
                    &&& self.spec_raises().is_none()
                    &&& n == self.spec_count()
                    &&& final(s)@ == self.spec_pushed_multi(old(s)@)
                },
                Err(e) => {
                    &&& self.spec_raises().is_some()
                    &&& e@ == ErrorView::Else(self.spec_raises().unwrap())
                    &&& final(s)@ == old(s)@
                },
            },
    ;
}

/// A host value that is read from a fixed number of consecutive cells.
pub trait FromLuaMulti: Sized + DeepView {
    /// The number of cells read.
    spec fn spec_count() -> int;

    /// What reading the cells from index `begin` on gives; `None` where
    /// one of them does not hold a value of its type.
    spec fn spec_from_lua_multi(s: StateView, begin: int) -> Option<<Self as DeepView>::V>;

    /// The number of cells read.
    fn count() -> (n: i32)
        ensures
            n == Self::spec_count(),
            0 <= n <= MAX_COUNT,
    ;

    /// The error for the first cell, from index `begin` on, that does not
    /// hold a value of its type; `None` where all of them do.
    spec fn spec_check_error(s: StateView, begin: int) -> Option<ErrorView>;

    /// Reads the cells from index `begin` on. Nothing is raised and the
    /// stack is not touched.
    fn from_lua(s: &State, begin: Index) -> (r: Option<Self>)
        requires
            s.wf(),
            begin as int + Self::spec_count() <= i32::MAX,
        ensures
            r.deep_view() == Self::spec_from_lua_multi(s@, begin as int),
    ;

    /// Reads the cells from index `begin` on, as a native function reads
    /// its arguments: where a cell does not hold a value of its type, the
    /// result is the type error to raise, which cites the position of the
    /// first such cell and the name of the type expected there.
    fn check(s: &State, begin: Index) -> (r: Result<Self, Error>)
        requires
            s.wf(),
            begin as int + Self::spec_count() <= i32::MAX,
        ensures
            match r {
                Ok(v) => Self::spec_from_lua_multi(s@, begin as int) == Some(v.deep_view())
                    && Self::spec_check_error(s@, begin as int).is_none(),
                Err(e) => Self::spec_from_lua_multi(s@, begin as int).is_none()
                    && Self::spec_check_error(s@, begin as int) == Some(e@),
            },
    ;
}

/// The context is its own extension.
pub proof fn lemma_extends_refl(pre: StateView)
    ensures
        pre.extends(pre),
{
    TopVal.lemma_pushed(pre);
}

/// Extension is transitive.
pub proof fn lemma_extends_trans(a: StateView, b: StateView, c: StateView)
    requires
        b.extends(a),
        c.extends(b),
    ensures
        c.extends(a),
{
    assert(c.stack.subrange(0, a.stack.len() as int) =~= a.stack) by {
        assert forall|i: int| 0 <= i < a.stack.len() implies c.stack[i] == a.stack[i] by {
            assert(b.stack.subrange(0, a.stack.len() as int)[i] == a.stack[i]);
            assert(c.stack.subrange(0, b.stack.len() as int)[i] == b.stack[i]);
        }
    }
    assert(c.heap.strings.subrange(0, a.heap.strings.len() as int) =~= a.heap.strings) by {
        assert forall|i: int| 0 <= i < a.heap.strings.len() implies c.heap.strings[i]
            == a.heap.strings[i] by {
            assert(b.heap.strings.subrange(0, a.heap.strings.len() as int)[i]
                == a.heap.strings[i]);
            assert(c.heap.strings.subrange(0, b.heap.strings.len() as int)[i]
                == b.heap.strings[i]);
        }
    }
    assert(c.heap.closures.subrange(0, a.heap.closures.len() as int) =~= a.heap.closures) by {
        assert forall|i: int| 0 <= i < a.heap.closures.len() implies c.heap.closures[i]
            == a.heap.closures[i] by {
            assert(b.heap.closures.subrange(0, a.heap.closures.len() as int)[i]
                == a.heap.closures[i]);
            assert(c.heap.closures.subrange(0, b.heap.closures.len() as int)[i]
                == b.heap.closures[i]);
        }
    }
}

impl ToLuaMulti for () {
    open spec fn spec_raises(&self) -> Option<Seq<u8>> {
        None
    }

    open spec fn spec_pushable_multi(&self, pre: StateView) -> bool {
        true
    }

    open spec fn spec_count(&self) -> int {
        0
    }

    open spec fn spec_pushed_multi(&self, pre: StateView) -> StateView {
        pre
    }

    proof fn lemma_pushed_multi(&self, pre: StateView) {
        lemma_extends_refl(pre);
    }

    fn to_lua(self, s: &mut State) -> (r: Result<i32, Error>) {
        Ok(0)
    }

    fn to_lua_result(self, s: &mut State) -> (r: Result<i32, Error>) {
        Ok(0)
    }
}

impl ToLuaMulti for Pushed {
    open spec fn spec_raises(&self) -> Option<Seq<u8>> {
        None
    }

    open spec fn spec_pushable_multi(&self, pre: StateView) -> bool {
        true
    }

    open spec fn spec_count(&self) -> int {
        self.0 as int
    }

    open spec fn spec_pushed_multi(&self, pre: StateView) -> StateView {
        pre
    }

    proof fn lemma_pushed_multi(&self, pre: StateView) {
        lemma_extends_refl(pre);
    }

    fn to_lua(self, s: &mut State) -> (r: Result<i32, Error>) {
        Ok(self.0)
    }

    fn to_lua_result(self, s: &mut State) -> (r: Result<i32, Error>) {
        Ok(self.0)
    }
}

impl ToLuaMulti for Option<Pushed> {
    open spec fn spec_raises(&self) -> Option<Seq<u8>> {
        None
    }

    open spec fn spec_pushable_multi(&self, pre: StateView) -> bool {
        true
    }

    open spec fn spec_count(&self) -> int {
        match self {
            Some(p) => p.0 as int,
            None => 0,
        }
    }

    open spec fn spec_pushed_multi(&self, pre: StateView) -> StateView {
        pre
    }

    proof fn lemma_pushed_multi(&self, pre: StateView) {
        lemma_extends_refl(pre);
    }

    fn to_lua(self, s: &mut State) -> (r: Result<i32, Error>) {
        match self {
            Some(p) => Ok(p.0),
            None => Ok(0),
        }
    }

    fn to_lua_result(self, s: &mut State) -> (r: Result<i32, Error>) {
        match self {
            Some(p) => Ok(p.0),
            None => Ok(0),
        }
    }
}

impl<T: ToLuaMulti, E: ErrorText> ToLuaMulti for Result<T, E> {
    open spec fn spec_raises(&self) -> Option<Seq<u8>> {
        match self {
            Ok(v) => v.spec_raises(),
            Err(e) => Some(e.spec_error_text()),
        }
    }

    open spec fn spec_pushable_multi(&self, pre: StateView) -> bool {
        match self {
            Ok(v) => v.spec_pushable_multi(pre),
            Err(e) => true,
        }
    }

    open spec fn spec_count(&self) -> int {
        match self {
            Ok(v) => v.spec_count(),
            Err(e) => 0,
        }
    }

    open spec fn spec_pushed_multi(&self, pre: StateView) -> StateView {
        match self {
            Ok(v) => v.spec_pushed_multi(pre),
            Err(e) => pre,
        }
    }

    proof fn lemma_pushed_multi(&self, pre: StateView) {
        match self {
            Ok(v) => {
                v.lemma_pushed_multi(pre);
            },
            Err(e) => {
                lemma_extends_refl(pre);
            },
        }
    }

    fn to_lua(self, s: &mut State) -> (r: Result<i32, Error>) {
        match self {
            Ok(v) => v.to_lua(s),
            Err(e) => Err(Error::Runtime(e.error_text())),
        }
    }

    fn to_lua_result(self, s: &mut State) -> (r: Result<i32, Error>) {
        match self {
            Ok(v) => v.to_lua_result(s),
            Err(e) => Err(Error::Else(e.error_text())),
        }
    }
}

impl FromLuaMulti for () {
    open spec fn spec_count() -> int {
        0
    }

    open spec fn spec_from_lua_multi(s: StateView, begin: int) -> Option<()> {
        Some(())
    }

    fn count() -> (n: i32) {
        0
    }

    open spec fn spec_check_error(s: StateView, begin: int) -> Option<ErrorView> {
        None
    }

    fn from_lua(s: &State, begin: Index) -> (r: Option<Self>) {
        Some(())
    }

    fn check(s: &State, begin: Index) -> (r: Result<Self, Error>) {
        Ok(())
    }
}

impl<T: FromLua> FromLuaMulti for T {
    open spec fn spec_count() -> int {
        1
    }

    open spec fn spec_from_lua_multi(s: StateView, begin: int) -> Option<<T as DeepView>::V> {
        T::spec_from_lua(s, begin)
    }

    fn count() -> (n: i32) {
        1
    }

    open spec fn spec_check_error(s: StateView, begin: int) -> Option<ErrorView> {
        if T::spec_from_lua(s, begin).is_none() {
            Some(s.type_error(begin, T::spec_tname()))
        } else {
            None
        }
    }

    fn from_lua(s: &State, begin: Index) -> (r: Option<Self>) {
        <T as FromLua>::from_lua(s, begin)
    }

    fn check(s: &State, begin: Index) -> (r: Result<Self, Error>) {
        s.check_arg::<T>(begin)
    }
}

impl<T: ToLua> ToLuaMulti for T {
    open spec fn spec_raises(&self) -> Option<Seq<u8>> {
        None
    }

    open spec fn spec_pushable_multi(&self, pre: StateView) -> bool {
        self.spec_pushable(pre)
    }

    open spec fn spec_count(&self) -> int {
        if T::spec_is_top() {
            0
        } else {
            1
        }
    }

    open spec fn spec_pushed_multi(&self, pre: StateView) -> StateView {
        self.spec_pushed(pre)
    }

    proof fn lemma_pushed_multi(&self, pre: StateView) {
        self.lemma_pushed(pre);
    }

    fn to_lua(self, s: &mut State) -> (r: Result<i32, Error>) {
        ToLua::to_lua(self, s);
        Ok(if T::is_top() {
            0
        } else {
            1
        })
    }

    fn to_lua_result(self, s: &mut State) -> (r: Result<i32, Error>) {
        ToLua::to_lua(self, s);
        Ok(if T::is_top() {
            0
        } else {
            1
        })
    }
}

} // verus!
