//! Coroutines: execution contexts with a stack of their own that share
//! the heap of the interpreter they belong to.

use vstd::prelude::*;
use crate::convert_multi::{FromLuaMulti, ToLuaMulti, MAX_COUNT, MULTI_ROOM};
use crate::error::{spec_status_error, Error, ErrorView};
use crate::heap::REGISTRY;
use crate::slot::Slot;
use crate::stack::{spec_resized, Index, Stack, MAX_STACK, REGISTRY_INDEX};
use crate::state::{State, StateView};
use crate::status::{ThreadStatus, Type};
use crate::suspend::spec_error_message;

verus! {

/// A coroutine. It holds the coroutine's stack while the coroutine is not
/// the running context; `swap` exchanges it with the stack of the
/// context that runs.
pub struct Coroutine {
    /// The handle of the coroutine's thread.
    pub thread: usize,
    /// The stack of the context that does not run.
    pub stack: Stack,
    /// The number of values that the last resume left on the coroutine's
    /// stack.
    pub nres: i32,
}

impl Coroutine {
    /// A coroutine holds a well-formed stack.
    pub open spec fn wf(&self) -> bool {
        self.stack.wf() && 0 <= self.nres
    }

    /// Creates a coroutine without a function. The new thread is kept in
    /// the registry under its own handle, as a raw address, so that it
    /// lives as long as the coroutine is not released. The stack of `s`
    /// is left as it was.
    pub fn empty(s: &mut State) -> (co: Coroutine)
        requires
            old(s).wf(),
            old(s)@.heap.threads < usize::MAX,
        ensures
            co.thread == old(s)@.heap.threads,
            co.stack@ == Seq::<Slot>::empty(),
            co.nres == 0,
            co.wf(),
            final(s)@ == old(s)@.with_heap(old(s)@.heap.with_new_thread()).stored(
                REGISTRY,
                Slot::LightUserdata(co.thread),
                Slot::Thread(co.thread),
            ),
            final(s).wf(),
    {
        let t = s.heap.new_thread();
        s.heap.table_set(REGISTRY, Slot::LightUserdata(t), Slot::Thread(t));
        Coroutine { thread: t, stack: Stack::new(), nres: 0 }
    }

    /// Creates a coroutine for the function at index `i` of `s`: the
    /// function is the one cell of the coroutine's stack. A value that is
    /// no function is a type error, and nothing is created.
    pub fn with_fn(s: &mut State, i: Index) -> (r: Result<Coroutine, Error>)
        requires
            old(s).wf(),
            old(s)@.heap.threads < usize::MAX,
        ensures
            final(s).wf(),
            match r {
                Ok(co) => {
                    &&& old(s)@.type_at(i as int) == Type::Function
                    &&& co.thread == old(s)@.heap.threads
                    &&& co.stack@ == seq![old(s)@.value_at(i as int)]
                    &&& co.nres == 0
                    &&& co.wf()
                    &&& final(s)@ == old(s)@.with_heap(old(s)@.heap.with_new_thread()).stored(
                        REGISTRY,
                        Slot::LightUserdata(co.thread),
                        Slot::Thread(co.thread),
                    )
                },
                Err(e) => {
                    &&& old(s)@.type_at(i as int) != Type::Function
                    &&& e@ == old(s)@.type_error(
                        i as int,
                        crate::diag::spec_typename(Type::Function),
                    )
                    &&& final(s)@ == old(s)@
                },
            },
    {
        match s.check_type(i, Type::Function) {
            Ok(()) => {},
            Err(e) => {
                return Err(e);
            },
        }
        let f = s.slot(i).unwrap();
        let mut co = Self::empty(s);
        co.stack.push(f);
        proof {
            assert(co.stack@ =~= seq![f]);
        }
        Ok(co)
    }

    /// Exchanges the stack that the coroutine holds with the stack of `s`,
    /// and the threads with them: where `s` was the context of the
    /// caller, it becomes the context of the coroutine, and the other way
    /// round. The heap is shared and stays.
    pub fn swap(&mut self, s: &mut State)
        ensures
            final(s)@ == (StateView {
                stack: old(self).stack@,
                thread: old(self).thread,
                ..old(s)@
            }),
            final(self).stack@ == old(s)@.stack,
            final(self).thread == old(s)@.thread,
            final(self).nres == old(self).nres,
    {
        std::mem::swap(&mut self.stack, &mut s.stack);
        std::mem::swap(&mut self.thread, &mut s.thread);
    }

    /// Moves the top `n` cells of `s` onto the stack that the coroutine
    /// holds.
    pub fn xmove(&mut self, s: &mut State, n: i32)
        requires
            old(s).wf(),
            old(self).wf(),
            0 <= n <= old(s)@.top(),
            old(self).stack@.len() + n <= MAX_STACK,
        ensures
            final(s)@ == old(s)@.popped(n as int),
            final(self).stack@ == old(self).stack@ + old(s)@.stack.subrange(
                old(s)@.top() - n,
                old(s)@.top(),
            ),
            final(self).thread == old(self).thread,
            final(self).nres == old(self).nres,
            final(s).wf(),
            final(self).wf(),
    {
        let cells = s.stack.take_top(n);
        self.stack.push_all(cells);
    }

    /// Gives the coroutine up: the registry forgets its thread.
    pub fn release(self, s: &mut State)
        requires
            old(s).wf(),
        ensures
            final(s)@ == old(s)@.stored(REGISTRY, Slot::LightUserdata(self.thread), Slot::Nil),
            final(s).wf(),
    {
        s.heap.table_set(REGISTRY, Slot::LightUserdata(self.thread), Slot::Nil);
    }

    /// Prepares a resume in the coroutine's own context `s`: drops what
    /// the last resume left and hands the arguments over. Returns the
    /// number of arguments to resume with.
    pub fn begin_resume<A: ToLuaMulti>(&mut self, s: &mut State, args: A) -> (r: Result<
        i32,
        Error,
    >)
        requires
            old(s).wf(),
            old(self).wf(),
            old(self).nres <= old(s)@.top(),
            old(s)@.popped(old(self).nres as int).has_room(MULTI_ROOM as int),
            args.spec_pushable_multi(old(s)@.popped(old(self).nres as int)),
        ensures
            final(s).wf(),
            final(self).wf(),
            final(self).thread == old(self).thread,
            final(self).stack@ == old(self).stack@,
            final(self).nres == 0,
            match r {
                Ok(n) => {
                    &&& args.spec_raises().is_none()
                    &&& n == args.spec_count()
                    &&& final(s)@ == args.spec_pushed_multi(
                        old(s)@.popped(old(self).nres as int),
                    )
                },
                Err(e) => {
                    &&& args.spec_raises().is_some()
                    &&& e@ == ErrorView::Runtime(args.spec_raises().unwrap())
                    &&& final(s)@ == old(s)@.popped(old(self).nres as int)
                },
            },
    {
        s.pop(self.nres);
        self.nres = 0;
        args.to_lua(s)
    }

    /// Takes in what a resume reported, in the coroutine's own context
    /// `s`. After success or a yield the `nres` values that the coroutine
    /// left are cut or filled with nil to the number that `R` reads, and
    /// read; values of the wrong type are a failed conversion. An error
    /// status gives the error of its kind with the interpreter's message.
    pub fn end_resume<R: FromLuaMulti>(&mut self, s: &mut State, status: ThreadStatus, nres: i32)
        -> (r: Result<R, Error>)
        requires
            old(s).wf(),
            old(self).wf(),
            !status.spec_is_err() ==> 0 <= nres <= old(s)@.top() && old(s)@.top() - nres
                + MAX_COUNT <= MAX_STACK,
        ensures
            final(s).wf(),
            final(self).wf(),
            final(self).thread == old(self).thread,
            final(self).stack@ == old(self).stack@,
            if status.spec_is_err() {
                &&& final(s)@ == old(s)@
                &&& final(self).nres == old(self).nres
                &&& r matches Err(e) && Some(e@) == spec_status_error(
                    status,
                    spec_error_message(old(s)@),
                )
            } else {
                let first = old(s)@.top() - nres;
                &&& final(s)@ == old(s)@.with_stack(
                    spec_resized(old(s)@.stack, first + R::spec_count()),
                )
                &&& final(self).nres == R::spec_count()
                &&& match r {
                    Ok(v) => R::spec_from_lua_multi(final(s)@, first + 1) == Some(v.deep_view()),
                    Err(e) => R::spec_from_lua_multi(final(s)@, first + 1).is_none() && e@
                        == ErrorView::ConvertFailed,
                }
            },
    {
        if status.is_err() {
            let msg = match s.to_bytes(-1) {
                Some(b) => crate::heap::bytes_to_vec(b.as_slice()),
                None => Vec::new(),
            };
            match Error::from_status(status, msg) {
                Ok(()) => Err(Error::ConvertFailed),
                Err(e) => Err(e),
            }
        } else {
            let count = R::count();
            let first: i32 = s.get_top() - nres;
            s.set_top(first + count);
            self.nres = count;
            match R::from_lua(s, first + 1) {
                Some(v) => Ok(v),
                None => Err(Error::ConvertFailed),
            }
        }
    }
}

impl State {
    /// The error that a status stands for, with the message that the
    /// interpreter left on top of the stack.
    pub fn to_error(&self, ts: ThreadStatus) -> (r: Result<(), Error>)
        requires
            self.wf(),
        ensures
            match r {
                Ok(()) => spec_status_error(ts, spec_error_message(self@)).is_none(),
                Err(e) => spec_status_error(ts, spec_error_message(self@)) == Some(e@),
            },
    {
        match ts {
            ThreadStatus::Success => Ok(()),
            ThreadStatus::Yield => Err(Error::Yield),
            _ => {
                let msg = match self.to_bytes(-1) {
                    Some(b) => crate::heap::bytes_to_vec(b.as_slice()),
                    None => Vec::new(),
                };
                Error::from_status(ts, msg)
            },
        }
    }
}

} // verus!
