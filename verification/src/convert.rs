//! The value conversion protocol: how a host value is pushed onto the
//! stack and how a cell of the stack is read back as a host value.

use vstd::prelude::*;
use vstd::string::StringSliceAdditionalSpecFns;
use crate::error::{text, Error, ErrorView};
use crate::heap::{bytes_to_vec, lemma_intern_extends};
use crate::slot::Slot;
use crate::stack::{Index, MAX_STACK, MIN_STACK};
use crate::state::{State, StateView};

verus! {

/// A host value that can be pushed onto the stack as one interpreter
/// value.
pub trait ToLua: Sized {
    /// Whether the value stands for what is on top of the stack already,
    /// so that pushing it pushes nothing.
    spec fn spec_is_top() -> bool;

    /// What the value asks of the context that it is pushed onto, beyond
    /// well-formedness and room on the stack.
    spec fn spec_pushable(&self, pre: StateView) -> bool;

    /// The context after the value is pushed onto `pre`.
    spec fn spec_pushed(&self, pre: StateView) -> StateView;

    /// Pushing only adds: the context grows by one cell, or by none for a
    /// value that stands for the top of the stack, and nothing that `pre`
    /// held is lost.
    proof fn lemma_pushed(&self, pre: StateView)
        requires
            self.spec_pushable(pre),
        ensures
            self.spec_pushed(pre).extends(pre),
            self.spec_pushed(pre).top() == pre.top() + if Self::spec_is_top() {
                0int
            } else {
                1int
            },
    ;

    /// Whether the value stands for what is on top of the stack already.
    fn is_top() -> (b: bool)
        ensures
            b == Self::spec_is_top(),
    ;

    /// Pushes the value.
    fn to_lua(self, s: &mut State)
        requires
            old(s).wf(),
            old(s)@.has_room(MIN_STACK as int),
            self.spec_pushable(old(s)@),
        ensures
            final(s)@ == self.spec_pushed(old(s)@),
            final(s).wf(),
    ;
}

/// A host value that can be read from one cell of the stack.
pub trait FromLua: Sized + DeepView {
    /// The name of the type in diagnostics.
    spec fn spec_tname() -> Seq<u8>;

    /// What reading at index `i` of `s` gives: the host value, or `None`
    /// where the cell does not hold a value of this type.
    spec fn spec_from_lua(s: StateView, i: int) -> Option<<Self as DeepView>::V>;

    /// The name of the type in diagnostics.
    fn tname() -> (n: Vec<u8>)
        ensures
            n@ == Self::spec_tname(),
    ;

    /// Reads the cell at index `i`. A cell of another type gives `None`;
    /// nothing is raised and the stack is not touched.
    fn from_lua(s: &State, i: Index) -> (r: Option<Self>)
        requires
            s.wf(),
        ensures
            r.deep_view() == Self::spec_from_lua(s@, i as int),
    ;
}

/// Host types for which reading what was pushed gives the value back.
pub trait RoundTrip: ToLua + FromLua {
    /// Whether `self` is one of the values that the interpreter can hold
    /// without loss.
    spec fn spec_representable(&self, pre: StateView) -> bool;

    /// `read(push(x)) == Some(x)`: the cell on top of the stack after a
    /// push reads back as the value that was pushed.
    proof fn lemma_round_trip(&self, pre: StateView)
        requires
            self.spec_pushable(pre),
            self.spec_representable(pre),
        ensures
            Self::spec_from_lua(self.spec_pushed(pre), -1) == Some(self.deep_view()),
            Self::spec_from_lua(self.spec_pushed(pre), pre.top() + 1) == Some(self.deep_view()),
    ;

    /// What was pushed stays readable where it was pushed, whatever is
    /// pushed or created after it.
    proof fn lemma_stays(&self, pre: StateView, post: StateView)
        requires
            self.spec_pushable(pre),
            self.spec_representable(pre),
            post.extends(self.spec_pushed(pre)),
        ensures
            Self::spec_from_lua(post, pre.top() + 1) == Some(self.deep_view()),
    ;
}

/// A cell of a context is the same cell in every extension of it.
pub proof fn lemma_extends_slot(a: StateView, b: StateView, i: int)
    requires
        b.extends(a),
        1 <= i <= a.top(),
    ensures
        b.slot_at(i) == a.slot_at(i),
        a.bytes_at(i).is_some() ==> b.bytes_at(i) == a.bytes_at(i),
{
    assert(b.stack.subrange(0, a.stack.len() as int)[i - 1] == a.stack[i - 1]);
    match a.slot_at(i) {
        Some(Slot::Str(id)) => {
            if id < a.heap.strings.len() {
                assert(b.heap.strings.subrange(0, a.heap.strings.len() as int)[id as int]
                    == a.heap.strings[id as int]);
            }
        },
        _ => {},
    }
}

/// Pushing one cell changes nothing below it.
pub proof fn lemma_pushed_slot(pre: StateView, v: Slot)
    ensures
        pre.pushed(v).extends(pre),
        pre.pushed(v).top() == pre.top() + 1,
        pre.pushed(v).slot_at(-1) == Some(v),
        pre.pushed(v).slot_at(pre.top() + 1) == Some(v),
{
    assert(pre.pushed(v).stack.subrange(0, pre.stack.len() as int) =~= pre.stack);
    assert(pre.heap.strings.subrange(0, pre.heap.strings.len() as int) =~= pre.heap.strings);
    assert(pre.heap.closures.subrange(0, pre.heap.closures.len() as int) =~= pre.heap.closures);
}

/// Pushing a byte string changes nothing below it and leaves every
/// string of the heap in place.
pub proof fn lemma_pushed_bytes(pre: StateView, b: Seq<u8>)
    ensures
        pre.pushed_bytes(b).extends(pre),
        pre.pushed_bytes(b).top() == pre.top() + 1,
        pre.heap.strings.len() <= usize::MAX ==> pre.pushed_bytes(b).bytes_at(-1) == Some(b),
        pre.heap.strings.len() <= usize::MAX ==> pre.pushed_bytes(b).bytes_at(pre.top() + 1)
            == Some(b),
{
    lemma_intern_extends(pre.heap, b);
    assert(pre.pushed_bytes(b).stack.subrange(0, pre.stack.len() as int) =~= pre.stack);
}

/// Stands for nil.
#[derive(Clone, Copy, Debug, PartialEq, Eq, Structural)]
pub struct NilVal;

/// Stands for a value of any type; reading it always succeeds.
#[derive(Clone, Copy, Debug, PartialEq, Eq, Structural)]
pub struct AnyVal;

/// Stands for the value that is on top of the stack already.
#[derive(Clone, Copy, Debug, PartialEq, Eq, Structural)]
pub struct TopVal;

/// A value that is read strictly: no conversion from another type is
/// accepted in its place.
#[derive(Debug, PartialEq, Eq)]
pub struct Strict<I>(pub I);

/// A boolean that is read strictly.
pub type StrictBool = Strict<bool>;

/// The number of values that an operation has pushed already.
#[derive(Clone, Copy, Debug, PartialEq, Eq, Hash, Structural)]
pub struct Pushed(pub i32);

/// A reference to a cell of the stack, by its index.
#[derive(Clone, Copy, Debug, PartialEq, Eq, Hash, Structural)]
pub struct StackRef(pub i32);

impl<I: DeepView> DeepView for Strict<I> {
    type V = I::V;

    open spec fn deep_view(&self) -> I::V {
        self.0.deep_view()
    }
}

impl DeepView for AnyVal {
    type V = ();

    open spec fn deep_view(&self) -> () {
        ()
    }
}

impl ToLua for NilVal {
    open spec fn spec_is_top() -> bool {
        false
    }

    open spec fn spec_pushable(&self, pre: StateView) -> bool {
        true
    }

    open spec fn spec_pushed(&self, pre: StateView) -> StateView {
        pre.pushed(Slot::Nil)
    }

    proof fn lemma_pushed(&self, pre: StateView) {
        lemma_pushed_slot(pre, Slot::Nil);
    }

    fn is_top() -> (b: bool) {
        false
    }

    fn to_lua(self, s: &mut State) {
        s.push_nil();
    }
}

impl ToLua for TopVal {
    open spec fn spec_is_top() -> bool {
        true
    }

    open spec fn spec_pushable(&self, pre: StateView) -> bool {
        true
    }

    open spec fn spec_pushed(&self, pre: StateView) -> StateView {
        pre
    }

    proof fn lemma_pushed(&self, pre: StateView) {
        assert(pre.stack.subrange(0, pre.stack.len() as int) =~= pre.stack);
        assert(pre.heap.strings.subrange(0, pre.heap.strings.len() as int) =~= pre.heap.strings);
        assert(pre.heap.closures.subrange(0, pre.heap.closures.len() as int)
            =~= pre.heap.closures);
    }

    fn is_top() -> (b: bool) {
        true
    }

    fn to_lua(self, s: &mut State) {
    }
}

impl ToLua for StackRef {
    open spec fn spec_is_top() -> bool {
        false
    }

    open spec fn spec_pushable(&self, pre: StateView) -> bool {
        true
    }

    open spec fn spec_pushed(&self, pre: StateView) -> StateView {
        pre.pushed(pre.value_at(self.0 as int))
    }

    proof fn lemma_pushed(&self, pre: StateView) {
        lemma_pushed_slot(pre, pre.value_at(self.0 as int));
    }

    fn is_top() -> (b: bool) {
        false
    }

    fn to_lua(self, s: &mut State) {
        s.push_value(self.0);
    }
}

impl ToLua for Slot {
    open spec fn spec_is_top() -> bool {
        false
    }

    open spec fn spec_pushable(&self, pre: StateView) -> bool {
        true
    }

    open spec fn spec_pushed(&self, pre: StateView) -> StateView {
        pre.pushed(*self)
    }

    proof fn lemma_pushed(&self, pre: StateView) {
        lemma_pushed_slot(pre, *self);
    }

    fn is_top() -> (b: bool) {
        false
    }

    fn to_lua(self, s: &mut State) {
        s.push_slot(self);
    }
}

impl ToLua for bool {
    open spec fn spec_is_top() -> bool {
        false
    }

    open spec fn spec_pushable(&self, pre: StateView) -> bool {
        true
    }

    open spec fn spec_pushed(&self, pre: StateView) -> StateView {
        pre.pushed(Slot::Bool(*self))
    }

    proof fn lemma_pushed(&self, pre: StateView) {
        lemma_pushed_slot(pre, Slot::Bool(*self));
    }

    fn is_top() -> (b: bool) {
        false
    }

    fn to_lua(self, s: &mut State) {
        s.push_bool(self);
    }
}

impl ToLua for Vec<u8> {
    open spec fn spec_is_top() -> bool {
        false
    }

    open spec fn spec_pushable(&self, pre: StateView) -> bool {
        true
    }

    open spec fn spec_pushed(&self, pre: StateView) -> StateView {
        pre.pushed_bytes(self@)
    }

    proof fn lemma_pushed(&self, pre: StateView) {
        lemma_pushed_bytes(pre, self@);
    }

    fn is_top() -> (b: bool) {
        false
    }

    fn to_lua(self, s: &mut State) {
        s.push_bytes(self.as_slice());
    }
}

impl<T: ToLua> ToLua for Option<T> {
    open spec fn spec_is_top() -> bool {
        T::spec_is_top()
    }

    open spec fn spec_pushable(&self, pre: StateView) -> bool {
        match self {
            Some(v) => v.spec_pushable(pre),
            None => true,
        }
    }

    open spec fn spec_pushed(&self, pre: StateView) -> StateView {
        match self {
            Some(v) => v.spec_pushed(pre),
            None => if T::spec_is_top() {
                pre
            } else {
                pre.pushed(Slot::Nil)
            },
        }
    }

    proof fn lemma_pushed(&self, pre: StateView) {
        match self {
            Some(v) => {
                v.lemma_pushed(pre);
            },
            None => {
                if T::spec_is_top() {
                    TopVal.lemma_pushed(pre);
                } else {
                    lemma_pushed_slot(pre, Slot::Nil);
                }
            },
        }
    }

    fn is_top() -> (b: bool) {
        T::is_top()
    }

    fn to_lua(self, s: &mut State) {
        match self {
            Some(v) => v.to_lua(s),
            None => {
                if !T::is_top() {
                    s.push_nil();
                }
            },
        }
    }
}

impl FromLua for AnyVal {
    open spec fn spec_tname() -> Seq<u8> {
        "any".spec_bytes()
    }

    open spec fn spec_from_lua(s: StateView, i: int) -> Option<()> {
        Some(())
    }

    fn tname() -> (n: Vec<u8>) {
        text("any")
    }

    fn from_lua(s: &State, i: Index) -> (r: Option<Self>) {
        Some(AnyVal)
    }
}

impl FromLua for bool {
    open spec fn spec_tname() -> Seq<u8> {
        "bool".spec_bytes()
    }

    open spec fn spec_from_lua(s: StateView, i: int) -> Option<bool> {
        Some(s.value_at(i).spec_truthy())
    }

    fn tname() -> (n: Vec<u8>) {
        text("bool")
    }

    fn from_lua(s: &State, i: Index) -> (r: Option<Self>) {
        Some(s.to_bool(i))
    }
}

impl FromLua for Strict<bool> {
    open spec fn spec_tname() -> Seq<u8> {
        "strict bool".spec_bytes()
    }

    open spec fn spec_from_lua(s: StateView, i: int) -> Option<bool> {
        match s.slot_at(i) {
            Some(Slot::Bool(b)) => Some(b),
            _ => None,
        }
    }

    fn tname() -> (n: Vec<u8>) {
        text("strict bool")
    }

    fn from_lua(s: &State, i: Index) -> (r: Option<Self>) {
        if s.is_bool(i) {
            Some(Strict(s.to_bool(i)))
        } else {
            None
        }
    }
}

impl FromLua for Vec<u8> {
    open spec fn spec_tname() -> Seq<u8> {
        "bytes".spec_bytes()
    }

    open spec fn spec_from_lua(s: StateView, i: int) -> Option<Seq<u8>> {
        s.bytes_at(i)
    }

    fn tname() -> (n: Vec<u8>) {
        text("bytes")
    }

    fn from_lua(s: &State, i: Index) -> (r: Option<Self>) {
        match s.to_bytes(i) {
            Some(b) => Some(bytes_to_vec(b.as_slice())),
            None => None,
        }
    }
}

impl<T: FromLua> FromLua for Option<T> {
    open spec fn spec_tname() -> Seq<u8> {
        T::spec_tname()
    }

    open spec fn spec_from_lua(s: StateView, i: int) -> Option<Option<<T as DeepView>::V>> {
        Some(T::spec_from_lua(s, i))
    }

    fn tname() -> (n: Vec<u8>) {
        T::tname()
    }

    fn from_lua(s: &State, i: Index) -> (r: Option<Self>) {
        Some(T::from_lua(s, i))
    }
}

impl RoundTrip for bool {
    open spec fn spec_representable(&self, pre: StateView) -> bool {
        true
    }

    proof fn lemma_round_trip(&self, pre: StateView) {
        lemma_pushed_slot(pre, Slot::Bool(*self));
    }

    proof fn lemma_stays(&self, pre: StateView, post: StateView) {
        lemma_pushed_slot(pre, Slot::Bool(*self));
        lemma_extends_slot(self.spec_pushed(pre), post, pre.top() + 1);
    }
}

impl RoundTrip for Vec<u8> {
    open spec fn spec_representable(&self, pre: StateView) -> bool {
        pre.heap.strings.len() <= usize::MAX
    }

    proof fn lemma_round_trip(&self, pre: StateView) {
        lemma_pushed_bytes(pre, self@);
    }

    proof fn lemma_stays(&self, pre: StateView, post: StateView) {
        lemma_pushed_bytes(pre, self@);
        lemma_extends_slot(self.spec_pushed(pre), post, pre.top() + 1);
    }
}

impl State {
    /// Pushes a host value onto the stack.
    pub fn push<T: ToLua>(&mut self, value: T)
        requires
            old(self).wf(),
            old(self)@.has_room(MIN_STACK as int),
            value.spec_pushable(old(self)@),
        ensures
            final(self)@ == value.spec_pushed(old(self)@),
            final(self).wf(),
    {
        value.to_lua(self);
    }

    /// Reads the cell at `index` as a host value; `None` where the cell
    /// does not hold a value of that type.
    pub fn arg<T: FromLua>(&self, index: Index) -> (r: Option<T>)
        requires
            self.wf(),
        ensures
            r.deep_view() == T::spec_from_lua(self@, index as int),
    {
        T::from_lua(self, index)
    }
}

} // verus!
