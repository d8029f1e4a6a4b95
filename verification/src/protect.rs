//! Protected calls with a message handler, and the helpers that read a
//! status.
//!
//! Running the function is the work of whoever drives the interpreter;
//! what is done before and after it is done here.

use vstd::prelude::*;
use vstd::string::StringSliceAdditionalSpecFns;
use crate::convert_multi::{FromLuaMulti, ToLuaMulti, MAX_COUNT, MULTI_ROOM};
use crate::error::{text, Error, ErrorView};
use crate::heap::bytes_to_vec;
use crate::mirror::spec_mirrored;
use crate::slot::Slot;
use crate::stack::{spec_resized, Index, MAX_STACK};
use crate::state::{State, StateView};
use crate::status::ThreadStatus;
use crate::suspend::spec_error_message;
use crate::text::{append, append_str};
use crate::value::Value;

verus! {

/// The identity of the entry point of the message handler that adds a
/// traceback to an error message.
pub const TRACEBACK_ENTRY: usize = 7;

/// A protected call that is under way.
#[derive(Clone, Copy, Debug, PartialEq, Eq, Structural)]
pub struct ProtectedCall {
    /// The index of the message handler, which lies below the function.
    pub base: i32,
    /// The number of arguments that were pushed.
    pub nargs: i32,
}

impl ProtectedCall {
    /// The protected call of the function that lies at index `function`,
    /// with `nargs` arguments: the message handler is put where the
    /// function lies, which moves the function up by one.
    pub fn below(function: i32, nargs: i32) -> (pc: ProtectedCall)
        ensures
            pc.base == function,
            pc.nargs == nargs,
    {
        ProtectedCall { base: function, nargs }
    }
}

/// What a balance guard remembers: the height of the stack at the time it
/// was made.
#[derive(Clone, Copy, Debug, PartialEq, Eq, Structural)]
pub struct BalanceState {
    pub top: i32,
}

impl BalanceState {
    /// Remembers the height of the stack of `state`.
    pub fn new(state: &State) -> (b: BalanceState)
        requires
            state.wf(),
        ensures
            b.top == state@.top(),
    {
        BalanceState { top: state.get_top() }
    }

    /// Brings the stack of `state` back to the height remembered.
    pub fn restore(&self, state: &mut State)
        requires
            old(state).wf(),
            0 <= self.top <= MAX_STACK,
        ensures
            final(state)@ == old(state)@.with_stack(
                spec_resized(old(state)@.stack, self.top as int),
            ),
            final(state).wf(),
    {
        state.set_top(self.top);
    }
}

impl ThreadStatus {
    /// Passes where the status is success. Any other status is an error
    /// of the caller.
    pub fn chk_err(self, s: &State)
        requires
            self == ThreadStatus::Success,
    {
    }

    /// The message of a failed check: what was attempted, a colon, and
    /// the message that the interpreter left.
    pub open spec fn spec_check_message(msg: Seq<u8>, s: StateView) -> Seq<u8> {
        msg + ": ".spec_bytes() + spec_error_message(s)
    }

    /// Success passes; any other status gives `msg`, a colon and the
    /// message that the interpreter left on top of the stack.
    pub fn check(self, s: &State, msg: &[u8]) -> (r: Result<(), Vec<u8>>)
        requires
            s.wf(),
        ensures
            match r {
                Ok(()) => self == ThreadStatus::Success,
                Err(m) => self != ThreadStatus::Success && m@ == Self::spec_check_message(
                    msg@,
                    s@,
                ),
            },
    {
        if self.is_ok() {
            Ok(())
        } else {
            let mut m: Vec<u8> = Vec::new();
            append(&mut m, msg);
            append_str(&mut m, ": ");
            match s.to_bytes(-1) {
                Some(b) => append(&mut m, b.as_slice()),
                None => {},
            }
            proof {
                assert(m@ =~= Self::spec_check_message(msg@, s@));
            }
            Err(m)
        }
    }
}

impl StateView {
    /// The context after a message handler is put below the function that
    /// lies on top of the stack.
    pub open spec fn with_handler(self, msg: usize) -> StateView {
        self.with_heap(self.heap.with_new_closure(msg, Seq::empty())).with_stack(
            self.stack.drop_last().push(Slot::Function(self.heap.closures.len() as usize)).push(
                self.stack.last(),
            ),
        )
    }
}

impl State {
    /// Remembers the height of the stack.
    pub fn balance(&self) -> (b: BalanceState)
        requires
            self.wf(),
        ensures
            b.top == self@.top(),
    {
        BalanceState::new(self)
    }

    /// Ends a piece of work that began when `guard` was made: brings the
    /// stack back to the height it had then and passes the result of the
    /// work through.
    pub fn balance_with<T>(&mut self, guard: BalanceState, result: T) -> (r: T)
        requires
            old(self).wf(),
            0 <= guard.top <= MAX_STACK,
        ensures
            r == result,
            final(self)@ == old(self)@.with_stack(
                spec_resized(old(self)@.stack, guard.top as int),
            ),
            final(self).wf(),
    {
        guard.restore(self);
        result
    }

    /// Begins a protected call of the function on top of the stack: puts
    /// the message handler `msg` below it and hands the arguments over.
    /// An argument that raises an error ends the call before it began:
    /// the function and the handler are dropped.
    pub fn xpcall_begin<T: ToLuaMulti>(&mut self, msg: usize, args: T) -> (r: Result<
        ProtectedCall,
        Error,
    >)
        requires
            old(self).wf(),
            old(self)@.top() >= 1,
            old(self)@.has_room(MULTI_ROOM + 1),
            args.spec_pushable_multi(old(self)@.with_handler(msg)),
        ensures
            final(self).wf(),
            match r {
                Ok(pc) => {
                    &&& args.spec_raises().is_none()
                    &&& pc.base == old(self)@.top()
                    &&& pc.nargs == args.spec_count()
                    &&& final(self)@ == args.spec_pushed_multi(old(self)@.with_handler(msg))
                },
                Err(e) => {
                    &&& args.spec_raises().is_some()
                    &&& e@ == ErrorView::Runtime(args.spec_raises().unwrap())
                    &&& final(self)@ == old(self)@.with_handler(msg).popped(2)
                },
            },
    {
        let i: i32 = self.get_top();
        self.push_fn(msg);
        self.insert(i);
        proof {
            assert(self@.stack =~= old(self)@.with_handler(msg).stack);
        }
        match args.to_lua(self) {
            Ok(nargs) => Ok(ProtectedCall::below(i, nargs)),
            Err(e) => {
                self.pop(2);
                Err(e)
            },
        }
    }

    /// Begins a protected call whose errors get a traceback.
    pub fn pcall_trace_begin<T: ToLuaMulti>(&mut self, args: T) -> (r: Result<
        ProtectedCall,
        Error,
    >)
        requires
            old(self).wf(),
            old(self)@.top() >= 1,
            old(self)@.has_room(MULTI_ROOM + 1),
            args.spec_pushable_multi(old(self)@.with_handler(TRACEBACK_ENTRY)),
        ensures
            final(self).wf(),
            match r {
                Ok(pc) => {
                    &&& args.spec_raises().is_none()
                    &&& pc.base == old(self)@.top()
                    &&& pc.nargs == args.spec_count()
                    &&& final(self)@ == args.spec_pushed_multi(
                        old(self)@.with_handler(TRACEBACK_ENTRY),
                    )
                },
                Err(e) => {
                    &&& args.spec_raises().is_some()
                    &&& e@ == ErrorView::Runtime(args.spec_raises().unwrap())
                    &&& final(self)@ == old(self)@.with_handler(TRACEBACK_ENTRY).popped(2)
                },
            },
    {
        self.xpcall_begin(TRACEBACK_ENTRY, args)
    }

    /// Ends a protected call that the interpreter has carried out with
    /// the status `status`. After success the results are read from the
    /// top of the stack; results of the wrong type give the message
    /// `<type not match>`. After a failure the message that the
    /// interpreter left is given, or `<error>` where it left none. Either
    /// way the stack is cut to what lay below the message handler.
    pub fn xpcall_end<R: FromLuaMulti>(&mut self, pc: ProtectedCall, status: ThreadStatus) -> (r:
        Result<R, Vec<u8>>)
        requires
            old(self).wf(),
            1 <= pc.base,
            pc.base - 1 <= old(self)@.top(),
            status == ThreadStatus::Success ==> R::spec_count() <= old(self)@.top(),
        ensures
            final(self).wf(),
            final(self)@ == old(self)@.with_stack(old(self)@.stack.subrange(0, pc.base - 1)),
            if status == ThreadStatus::Success {
                match r {
                    Ok(v) => R::spec_from_lua_multi(
                        old(self)@,
                        old(self)@.top() - R::spec_count() + 1,
                    ) == Some(v.deep_view()),
                    Err(m) => R::spec_from_lua_multi(
                        old(self)@,
                        old(self)@.top() - R::spec_count() + 1,
                    ).is_none() && m@ == "<type not match>".spec_bytes(),
                }
            } else {
                r matches Err(m) && m@ == (match old(self)@.bytes_at(-1) {
                    Some(b) => b,
                    None => "<error>".spec_bytes(),
                })
            },
    {
        let count = R::count();
        let r = if status.is_ok() {
            let first: i32 = self.get_top() - count + 1;
            match R::from_lua(self, first) {
                Some(v) => Ok(v),
                None => Err(text("<type not match>")),
            }
        } else {
            match self.to_bytes(-1) {
                Some(b) => Err(bytes_to_vec(b.as_slice())),
                None => Err(text("<error>")),
            }
        };
        self.set_top(pc.base - 1);
        proof {
            assert(self@.stack =~= old(self)@.stack.subrange(0, pc.base - 1));
        }
        r
    }
}

/// Ends a protected call on primitive values: `left` is what the
/// interpreter left above the message handler, bottom first. After
/// success the results are read from the last of these values; results
/// of the wrong type give the message `<type not match>`. After a failure
/// the message is the last value where that is a string, and `<error>`
/// otherwise.
pub fn finish<R: FromLuaMulti>(status: ThreadStatus, left: &Vec<Value>) -> (r: Result<R, Vec<u8>>)
    requires
        left.len() <= MAX_STACK,
        status == ThreadStatus::Success ==> R::spec_count() <= left.len(),
    ensures
        ({
            let m = spec_mirrored(left.deep_view(), left.len() as int);
            if status == ThreadStatus::Success {
                match r {
                    Ok(v) => R::spec_from_lua_multi(m, left.len() - R::spec_count() + 1) == Some(
                        v.deep_view(),
                    ),
                    Err(msg) => R::spec_from_lua_multi(m, left.len() - R::spec_count() + 1).is_none()
                        && msg@ == "<type not match>".spec_bytes(),
                }
            } else {
                r matches Err(msg) && msg@ == (match m.bytes_at(-1) {
                    Some(b) => b,
                    None => "<error>".spec_bytes(),
                })
            }
        }),
{
    let mut model = State::of_values(left);
    model.xpcall_end::<R>(ProtectedCall::below(1, 0), status)
}

} // verus!
