//! The boundary of a protected call.
//!
//! The caller pushes a function and its arguments. Entering the call sets
//! the caller's cells aside, so that the function sees its arguments from
//! index 1 on and its own upvalues. Leaving the call puts the caller's
//! cells back and, above them, the results that were asked for, or the
//! message of the error that ended the call: an error never crosses the
//! boundary.

use vstd::prelude::*;
use vstd::string::StringSliceAdditionalSpecFns;
use crate::error::{Error, ErrorView};
use crate::convert_multi::{FromLuaMulti, ToLuaMulti, MAX_COUNT, MULTI_ROOM};
use crate::function::Outcome;
use crate::slot::Slot;
use crate::stack::{Stack, MAX_STACK, MAX_UPVALUES, MULTRET};
use crate::state::{State, StateView};
use crate::status::ThreadStatus;
use crate::text::{append, append_str};

verus! {

/// What a call in progress has set aside of its caller.
pub struct Frame {
    lower: Vec<Slot>,
    upvalues: Vec<Slot>,
    nresults: i32,
}

/// The mathematical content of a [`Frame`].
pub struct FrameView {
    /// The caller's cells below the function that is called.
    pub lower: Seq<Slot>,
    /// The caller's upvalues.
    pub upvalues: Seq<Slot>,
    /// The number of results that the caller asked for; -1 for all.
    pub nresults: int,
}

impl View for Frame {
    type V = FrameView;

    closed spec fn view(&self) -> FrameView {
        FrameView { lower: self.lower@, upvalues: self.upvalues@, nresults: self.nresults as int }
    }
}

impl FrameView {
    /// A frame holds what a well-formed context can hold.
    pub open spec fn wf(self) -> bool {
        &&& self.lower.len() < MAX_STACK
        &&& self.upvalues.len() <= MAX_UPVALUES
        &&& self.nresults >= MULTRET
    }
}

/// The message of the error for a call of something that is no function.
pub open spec fn spec_not_callable(v: Slot) -> Seq<u8> {
    "attempt to call a ".spec_bytes() + crate::diag::spec_typename(v.spec_type_of())
        + " value".spec_bytes()
}

/// The results of a call as its caller gets them: the top `n` cells, cut
/// or filled with nil to the number that was asked for; all of them where
/// the caller asked for all.
pub open spec fn spec_results(stack: Seq<Slot>, n: int, nresults: int) -> Seq<Slot> {
    let got = stack.subrange(stack.len() - n, stack.len() as int);
    if nresults == MULTRET {
        got
    } else {
        Seq::new(
            nresults as nat,
            |i: int|
                if i < n {
                    got[i]
                } else {
                    Slot::Nil
                },
        )
    }
}

impl StateView {
    /// The function that a call with `nargs` arguments calls: the cell
    /// below the arguments.
    pub open spec fn callee(self, nargs: int) -> Slot {
        self.stack[self.stack.len() - nargs - 1]
    }

    /// The closure that a call with `nargs` arguments calls, if what is
    /// called is a function.
    pub open spec fn callee_closure(self, nargs: int) -> Option<crate::heap::ClosureView> {
        match self.callee(nargs) {
            Slot::Function(f) => self.heap.get_closure(f),
            _ => None,
        }
    }
}

impl State {
    /// Enters the call of the function that lies below the top `nargs`
    /// cells. On success the context is that of the function: its
    /// arguments are the stack, and its upvalues are in place; the result
    /// is the frame to leave the call with and the identity of the entry
    /// point to run. Where what is called is no function, the call ends
    /// at once as a call that failed: the function and the arguments are
    /// replaced by the message of the error.
    pub fn enter_call(&mut self, nargs: i32, nresults: i32) -> (r: Result<(Frame, usize), Error>)
        requires
            old(self).wf(),
            0 <= nargs < old(self)@.top(),
            nresults >= MULTRET,
        ensures
            final(self).wf(),
            final(self)@.thread == old(self)@.thread,
            match r {
                Ok((frame, entry)) => {
                    let c = old(self)@.callee_closure(nargs as int);
                    &&& c.is_some()
                    &&& entry == c.unwrap().entry
                    &&& final(self)@.stack == old(self)@.stack.subrange(
                        old(self)@.top() - nargs,
                        old(self)@.top(),
                    )
                    &&& final(self)@.upvalues == c.unwrap().upvalues
                    &&& final(self)@.heap == old(self)@.heap
                    &&& frame@.lower == old(self)@.stack.subrange(0, old(self)@.top() - nargs - 1)
                    &&& frame@.upvalues == old(self)@.upvalues
                    &&& frame@.nresults == nresults
                    &&& frame@.wf()
                },
                Err(e) => {
                    let c = old(self)@.callee_closure(nargs as int);
                    let msg = spec_not_callable(old(self)@.callee(nargs as int));
                    &&& c.is_none() || c.unwrap().upvalues.len() > MAX_UPVALUES
                    &&& e@ == ErrorView::Runtime(msg)
                    &&& final(self)@ == old(self)@.with_stack(
                        old(self)@.stack.subrange(0, old(self)@.top() - nargs - 1),
                    ).pushed_bytes(msg)
                },
            },
    {
        let top: i32 = self.get_top();
        let callee = self.stack.get(top - nargs).unwrap();
        let found = match callee {
            Slot::Function(f) => match self.heap.closure_entry(f) {
                Some(entry) => {
                    let ups = self.heap.closure_upvalues(f);
                    if ups.len() <= MAX_UPVALUES as usize {
                        Some((entry, ups))
                    } else {
                        None
                    }
                },
                None => None,
            },
            _ => None,
        };
        match found {
            Some((entry, ups)) => {
                let args = self.stack.take_top(nargs);
                self.stack.pop(1);
                let top_left: i32 = self.stack.get_top();
                let lower = self.stack.take_top(top_left);
                proof {
                    assert(lower@ =~= old(self)@.stack.subrange(0, old(self)@.top() - nargs - 1));
                }
                self.stack.push_all(args);
                let mut saved = ups;
                std::mem::swap(&mut saved, &mut self.upvalues);
                Ok((Frame { lower, upvalues: saved, nresults }, entry))
            },
            None => {
                self.stack.pop(nargs + 1);
                let mut msg: Vec<u8> = Vec::new();
                append_str(&mut msg, "attempt to call a ");
                let n = State::typename_of(callee.type_of());
                append(&mut msg, n.as_slice());
                append_str(&mut msg, " value");
                proof {
                    assert(msg@ =~= spec_not_callable(callee));
                }
                self.push_bytes(msg.as_slice());
                Err(Error::Runtime(msg))
            },
        }
    }

    /// Leaves a call. `outcome` is how the function ended: `Ok(n)` for a
    /// return of the top `n` cells, `Err` for an error. The caller's cells
    /// and upvalues are put back. After a return the results lie above
    /// them, cut or filled with nil to the number that the caller asked
    /// for, and the status is success; after an error the message of the
    /// error lies there, and the status is that of a runtime error.
    pub fn leave_call(&mut self, frame: Frame, outcome: Result<i32, Error>) -> (status:
        ThreadStatus)
        requires
            old(self).wf(),
            frame@.wf(),
            outcome matches Ok(n) ==> 0 <= n <= old(self)@.top() && frame@.lower.len() + n
                <= MAX_STACK && frame@.lower.len() + frame@.nresults <= MAX_STACK,
        ensures
            final(self).wf(),
            final(self)@.upvalues == frame@.upvalues,
            final(self)@.thread == old(self)@.thread,
            match outcome {
                Ok(n) => {
                    &&& status == ThreadStatus::Success
                    &&& final(self)@.stack == frame@.lower + spec_results(
                        old(self)@.stack,
                        n as int,
                        frame@.nresults,
                    )
                    &&& final(self)@.heap == old(self)@.heap
                },
                Err(e) => {
                    &&& status == ThreadStatus::RuntimeError
                    &&& final(self)@ == (StateView {
                        stack: frame@.lower,
                        upvalues: frame@.upvalues,
                        ..old(self)@
                    }).pushed_bytes(e.spec_message())
                    &&& final(self)@.bytes_at(-1) == Some(e.spec_message())
                },
            },
    {
        let Frame { lower, upvalues, nresults } = frame;
        let top: i32 = self.stack.get_top();
        match outcome {
            Ok(n) => {
                let mut results = self.stack.take_top(n);
                if nresults != MULTRET {
                    results.resize(nresults as usize, Slot::Nil);
                }
                proof {
                    assert(results@ =~= spec_results(old(self)@.stack, n as int, nresults as int));
                }
                let rest: i32 = self.stack.get_top();
                self.stack.pop(rest);
                self.stack.push_all(lower);
                self.stack.push_all(results);
                self.upvalues = upvalues;
                ThreadStatus::Success
            },
            Err(e) => {
                self.stack.pop(top);
                self.stack.push_all(lower);
                self.upvalues = upvalues;
                let m = e.message();
                self.push_bytes(m.as_slice());
                ThreadStatus::RuntimeError
            },
        }
    }
}

/// The context that the function of a call with `nargs` arguments runs
/// in: its arguments are the stack, and its upvalues are in place.
pub open spec fn spec_inside(pre: StateView, nargs: int) -> StateView {
    StateView {
        stack: pre.stack.subrange(pre.top() - nargs, pre.top()),
        upvalues: pre.callee_closure(nargs).unwrap().upvalues,
        ..pre
    }
}

/// The stack after a protected call of a plain host function that gave
/// `x`: the caller's cells, and above them the results, cut or filled
/// with nil to the number that was asked for.
pub open spec fn spec_returned<R: ToLuaMulti>(pre: StateView, nargs: int, nresults: int, x: R)
    -> Seq<Slot> {
    let inside = x.spec_pushed_multi(spec_inside(pre, nargs));
    pre.stack.subrange(0, pre.top() - nargs - 1) + spec_results(
        inside.stack,
        x.spec_count(),
        nresults,
    )
}

impl State {
    /// A protected call, from the function and its arguments on the stack
    /// to the results or the error message on the stack, of a function
    /// that bridges the plain host function `f`.
    ///
    /// On success the function and its arguments are replaced by the
    /// results of `f`. Where an argument is not of its type, or `f` gives
    /// an error, or what is called is no function, they are replaced by
    /// the message of the error, and the status is that of a runtime
    /// error. The caller's cells below the function and the caller's
    /// upvalues are never touched.
    pub fn pcall_with<T: FromLuaMulti, R: ToLuaMulti, F: FnOnce(T) -> R>(
        &mut self,
        nargs: i32,
        nresults: i32,
        f: F,
    ) -> (status: ThreadStatus)
        requires
            old(self).wf(),
            0 <= nargs < old(self)@.top(),
            MULTRET <= nresults,
            old(self)@.top() - nargs - 1 + nresults <= MAX_STACK,
            nargs + MULTI_ROOM <= MAX_STACK,
            old(self)@.top() + MAX_COUNT <= MAX_STACK,
            forall|t: T| call_requires(f, (t,)),
            forall|t: T, x: R| #[trigger]
                call_ensures(f, (t,), x) ==> x.spec_pushable_multi(
                    spec_inside(old(self)@, nargs as int),
                ) && 0 <= x.spec_count() <= x.spec_pushed_multi(
                    spec_inside(old(self)@, nargs as int),
                ).top(),
        ensures
            final(self).wf(),
            final(self)@.upvalues == old(self)@.upvalues,
            final(self)@.thread == old(self)@.thread,
            final(self)@.stack.subrange(0, old(self)@.top() - nargs - 1) == old(
                self,
            )@.stack.subrange(0, old(self)@.top() - nargs - 1),
            match status {
                ThreadStatus::Success => {
                    let args = spec_inside(old(self)@, nargs as int);
                    &&& old(self)@.callee_closure(nargs as int).is_some()
                    &&& exists|t: T, x: R|
                        {
                            &&& T::spec_from_lua_multi(args, 1) == Some(t.deep_view())
                            &&& #[trigger] call_ensures(f, (t,), x)
                            &&& x.spec_raises().is_none()
                            &&& final(self)@.stack == spec_returned(
                                old(self)@,
                                nargs as int,
                                nresults as int,
                                x,
                            )
                            &&& final(self)@.heap == x.spec_pushed_multi(args).heap
                        }
                },
                ThreadStatus::RuntimeError => {
                    let args = spec_inside(old(self)@, nargs as int);
                    let c = old(self)@.callee_closure(nargs as int);
                    &&& final(self)@.top() == old(self)@.top() - nargs
                    &&& final(self)@.bytes_at(-1).is_some()
                    &&& if c.is_none() || c.unwrap().upvalues.len() > MAX_UPVALUES {
                        final(self)@.bytes_at(-1) == Some(
                            spec_not_callable(old(self)@.callee(nargs as int)),
                        )
                    } else {
                        match T::spec_check_error(args, 1) {
                            Some(a) => a.message() == final(self)@.bytes_at(-1).unwrap(),
                            None => exists|t: T, x: R|
                                {
                                    &&& T::spec_from_lua_multi(args, 1) == Some(t.deep_view())
                                    &&& #[trigger] call_ensures(f, (t,), x)
                                    &&& x.spec_raises() == final(self)@.bytes_at(-1)
                                },
                        }
                    }
                },
                _ => false,
            },
    {
        let ghost pre = self@;
        match self.enter_call(nargs, nresults) {
            Err(_) => {
                proof {
                    let low = pre.with_stack(pre.stack.subrange(0, pre.top() - nargs - 1));
                    let msg = spec_not_callable(pre.callee(nargs as int));
                    crate::convert::lemma_pushed_bytes(low, msg);
                    assert(self@.stack.subrange(0, pre.top() - nargs - 1) =~= pre.stack.subrange(
                        0,
                        pre.top() - nargs - 1,
                    ));
                }
                ThreadStatus::RuntimeError
            },
            Ok((frame, _)) => {
                let ghost args = self@;
                let ghost lower = frame@.lower;
                proof {
                    assert(args == spec_inside(pre, nargs as int));
                }
                match crate::function::call::<T, R, F>(self, f) {
                    Ok(o) => {
                        let n: i32 = match o {
                            Outcome::Return(n) => n,
                            Outcome::Yield(n) => n,
                        };
                        proof {
                            let (t, x) = choose|t: T, x: R|
                                {
                                    &&& T::spec_from_lua_multi(args, 1) == Some(t.deep_view())
                                    &&& #[trigger] call_ensures(f, (t,), x)
                                    &&& x.spec_raises().is_none()
                                    &&& n == x.spec_count()
                                    &&& self@ == x.spec_pushed_multi(args)
                                };
                            x.lemma_pushed_multi(args);
                            assert(x.spec_pushable_multi(args));
                            assert(0 <= n <= self@.top());
                        }
                        let status = self.leave_call(frame, Ok(n));
                        proof {
                            assert(self@.stack.subrange(0, pre.top() - nargs - 1) =~= lower);
                        }
                        status
                    },
                    Err(e) => {
                        let ghost inside = self@;
                        let status = self.leave_call(frame, Err(e));
                        proof {
                            let low = (StateView {
                                stack: lower,
                                upvalues: pre.upvalues,
                                ..inside
                            });
                            crate::convert::lemma_pushed_bytes(low, e.spec_message());
                            assert(self@.stack.subrange(0, pre.top() - nargs - 1) =~= lower);
                        }
                        status
                    },
                }
            },
        }
    }
}

} // verus!
