//! Primitive values across the edge of the interpreter: a stack is
//! rebuilt from the values that were read off another one, and handed
//! out as values again.
//!
//! A value without primitive content (a table, a function, an object)
//! crosses as nil.

use vstd::prelude::*;
use crate::convert::{lemma_extends_slot, lemma_pushed_bytes, lemma_pushed_slot};
use crate::convert_multi::{FromLuaMulti, ToLuaMulti, MULTI_ROOM};
use crate::error::{Error, ErrorView};
use crate::function::call_from;
use crate::slot::Slot;
use crate::stack::{Index, MAX_STACK};
use crate::state::{State, StateView};
use crate::value::{Value, ValueView};

verus! {

/// What is left of a value when it crosses: its primitive content, and
/// nil where it has none.
pub open spec fn spec_plain(v: ValueView) -> ValueView {
    match v {
        ValueView::Int(_) | ValueView::Num(_) | ValueView::Bool(_) | ValueView::Str(_) => v,
        _ => ValueView::Nil,
    }
}

impl StateView {
    /// The context after the primitive content of `v` is pushed.
    pub open spec fn pushed_plain(self, v: ValueView) -> StateView {
        match v {
            ValueView::Int(n) => self.pushed(Slot::Int(n)),
            ValueView::Num(b) => self.pushed(Slot::Num(b)),
            ValueView::Bool(b) => self.pushed(Slot::Bool(b)),
            ValueView::Str(b) => self.pushed_bytes(b),
            _ => self.pushed(Slot::Nil),
        }
    }

    /// Whether the cell at the absolute index `i` holds a string that is
    /// not in the heap.
    pub open spec fn dangling(self, i: int) -> bool {
        self.slot_at(i) matches Some(Slot::Str(_)) && self.bytes_at(i).is_none()
    }
}

/// The context whose stack holds the first `n` of the values `vs`, bottom
/// first, and nothing else.
pub open spec fn spec_mirrored(vs: Seq<ValueView>, n: int) -> StateView
    decreases n,
{
    if n <= 0 {
        StateView::initial()
    } else {
        spec_mirrored(vs, n - 1).pushed_plain(vs[n - 1])
    }
}

/// Pushing the primitive content of a value only extends the context, by
/// one cell, which reads back as that content.
pub proof fn lemma_pushed_plain(pre: StateView, v: ValueView)
    requires
        pre.heap.strings.len() <= usize::MAX,
    ensures
        pre.pushed_plain(v).extends(pre),
        pre.pushed_plain(v).top() == pre.top() + 1,
        pre.pushed_plain(v).value_view(pre.top() + 1) == spec_plain(v),
        !pre.pushed_plain(v).dangling(pre.top() + 1),
{
    match v {
        ValueView::Int(n) => lemma_pushed_slot(pre, Slot::Int(n)),
        ValueView::Num(b) => lemma_pushed_slot(pre, Slot::Num(b)),
        ValueView::Bool(b) => lemma_pushed_slot(pre, Slot::Bool(b)),
        ValueView::Str(b) => lemma_pushed_bytes(pre, b),
        _ => lemma_pushed_slot(pre, Slot::Nil),
    }
}

impl State {
    /// Pushes the primitive content of `v`, and nil where it has none.
    pub fn push_plain(&mut self, v: &Value)
        requires
            old(self).wf(),
            old(self)@.has_room(1),
        ensures
            final(self)@ == old(self)@.pushed_plain(v.deep_view()),
            final(self)@.value_view(-1) == spec_plain(v.deep_view()),
            final(self).wf(),
    {
        proof {
            lemma_pushed_plain(self@, v.deep_view());
        }
        match v {
            Value::Int(n) => self.push_integer(*n),
            Value::Num(b) => self.push_number(*b),
            Value::Bool(b) => self.push_bool(*b),
            Value::Str(b) => self.push_bytes(b.as_slice()),
            _ => self.push_nil(),
        }
    }

    /// A fresh context whose stack holds the primitive content of the
    /// values given, bottom first: the cell at index `i + 1` reads back
    /// as the `i`-th value.
    pub fn of_values(values: &Vec<Value>) -> (s: State)
        requires
            values.len() <= MAX_STACK,
        ensures
            s@ == spec_mirrored(values.deep_view(), values.len() as int),
            s@.top() == values.len(),
            forall|i: int|
                0 <= i < values.len() ==> #[trigger] s@.value_view(i + 1) == spec_plain(
                    values.deep_view()[i],
                ),
            s.wf(),
    {
        let mut s = State::new();
        let mut n: usize = 0;
        while n < values.len()
            invariant
                n <= values.len(),
                values.len() <= MAX_STACK,
                s.wf(),
                s@ == spec_mirrored(values.deep_view(), n as int),
                s@.top() == n,
                forall|i: int|
                    0 <= i < n ==> #[trigger] s@.value_view(i + 1) == spec_plain(
                        values.deep_view()[i],
                    ) && !s@.dangling(i + 1),
            decreases values.len() - n,
        {
            let ghost before = s@;
            proof {
                lemma_pushed_plain(before, values[n as int].deep_view());
                assert(values.deep_view()[n as int] == values[n as int].deep_view());
                assert forall|i: int| 0 <= i < n implies #[trigger] before.pushed_plain(
                    values[n as int].deep_view(),
                ).value_view(i + 1) == spec_plain(values.deep_view()[i]) && !before.pushed_plain(
                    values[n as int].deep_view(),
                ).dangling(i + 1) by {
                    assert(before.value_view(i + 1) == spec_plain(values.deep_view()[i]));
                    lemma_extends_slot(
                        before,
                        before.pushed_plain(values[n as int].deep_view()),
                        i + 1,
                    );
                }
            }
            s.push_plain(&values[n]);
            n = n + 1;
        }
        s
    }

    /// The primitive content of the cells from index `from` up to the
    /// top, bottom first.
    pub fn values(&self, from: Index) -> (r: Vec<Value>)
        requires
            self.wf(),
            1 <= from,
        ensures
            r.len() == if from <= self@.top() {
                self@.top() - from + 1
            } else {
                0
            },
            forall|i: int|
                0 <= i < r.len() ==> (#[trigger] r[i]).deep_view() == self@.value_view(from + i),
    {
        let top: i32 = self.get_top();
        let mut r: Vec<Value> = Vec::new();
        let mut k: i32 = from;
        while k <= top
            invariant
                1 <= from <= k,
                k <= top + 1 || (k == from && r.len() == 0),
                top == self@.top(),
                top <= MAX_STACK,
                self.wf(),
                k <= top + 1 ==> r.len() == k - from,
                forall|i: int|
                    0 <= i < r.len() ==> (#[trigger] r[i]).deep_view() == self@.value_view(
                        from + i,
                    ),
            decreases top + 1 - k,
        {
            let v = self.value(k);
            r.push(v);
            k = k + 1;
        }
        r
    }
}

/// Whether `out` is what a native function hands back when it leaves the
/// context `fin`, having been called with `nargs` arguments: the
/// primitive content of the cells above its arguments, bottom first.
pub open spec fn spec_handed_back(fin: StateView, nargs: int, out: Seq<ValueView>) -> bool {
    &&& out.len() == if nargs < fin.top() {
        fin.top() - nargs
    } else {
        0
    }
    &&& forall|i: int| 0 <= i < out.len() ==> #[trigger] out[i] == fin.value_view(nargs + 1 + i)
}

/// Serves one call of the plain host function `f` on primitive values:
/// `args` is what the function was called with, of which the values from
/// position `first` on (counted from 1) are read as the function's
/// parameters; the function is called, and its results are handed back
/// as values.
///
/// Where an argument is not of its type the result is the type error,
/// which cites the position of the argument; where `f` gives an error,
/// the result is that error.
pub fn serve<T: FromLuaMulti, R: ToLuaMulti, F: FnOnce(T) -> R>(
    args: &Vec<Value>,
    first: Index,
    f: F,
) -> (r: Result<Vec<Value>, Error>)
    requires
        args.len() + MULTI_ROOM <= MAX_STACK,
        1 <= first <= MAX_STACK,
        forall|t: T| call_requires(f, (t,)),
        forall|t: T, x: R|
            call_ensures(f, (t,), x) ==> x.spec_pushable_multi(
                spec_mirrored(args.deep_view(), args.len() as int),
            ),
    ensures
        ({
            let m = spec_mirrored(args.deep_view(), args.len() as int);
            match r {
                Ok(out) => exists|t: T, x: R|
                    {
                        &&& T::spec_from_lua_multi(m, first as int) == Some(t.deep_view())
                        &&& #[trigger] call_ensures(f, (t,), x)
                        &&& x.spec_raises().is_none()
                        &&& spec_handed_back(
                            x.spec_pushed_multi(m),
                            args.len() as int,
                            out.deep_view(),
                        )
                    },
                Err(e) => match T::spec_check_error(m, first as int) {
                    Some(a) => e@ == a,
                    None => exists|t: T, x: R|
                        {
                            &&& T::spec_from_lua_multi(m, first as int) == Some(t.deep_view())
                            &&& #[trigger] call_ensures(f, (t,), x)
                            &&& x.spec_raises().is_some()
                            &&& e@ == ErrorView::Runtime(x.spec_raises().unwrap())
                        },
                },
            }
        }),
{
    let mut model = State::of_values(args);
    let ghost m = model@;
    match call_from::<T, R, F>(&mut model, first, f) {
        Ok(_) => {
            let first: i32 = args.len() as i32 + 1;
            let out = model.values(first);
            proof {
                assert forall|i: int| 0 <= i < out.deep_view().len() implies #[trigger] out.deep_view()[i]
                    == model@.value_view(args.len() + 1 + i) by {
                    assert(out.deep_view()[i] == out[i].deep_view());
                }
            }
            Ok(out)
        },
        Err(e) => Err(e),
    }
}

} // verus!
