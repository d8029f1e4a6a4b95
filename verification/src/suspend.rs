//! The suspension bridge: how a native function hands a pending host
//! operation to whoever drives the coroutine, and how the driver takes it
//! out, completes it and resumes the coroutine with its results.
//!
//! The driver owns the loop, since resuming a coroutine and awaiting an
//! operation are its work. Every decision in between is taken here: the
//! bridge is a machine with four states, which the driver feeds with what
//! a resume reported and with what an operation produced, and which
//! answers with what to do next.

use vstd::prelude::*;
use vstd::string::StringSliceAdditionalSpecFns;
use crate::convert_multi::{lemma_extends_refl, FromLuaMulti, MULTI_ROOM};
use crate::error::{spec_status_error, text, Error, ErrorView};
use crate::function::Outcome;
use crate::heap::Userdata;
use crate::object::{expose, spec_exposed, spec_type_ready, OBJECT_ROOM};
use crate::slot::Slot;
use crate::stack::{spec_resized, spec_rotated, MAX_STACK, MIN_STACK};
use crate::state::{State, StateView};
use crate::status::ThreadStatus;
use crate::userdata::{Entries, Policy, UserData};
use crate::value::ValRef;

verus! {

/// The marker that carries a pending host operation out of a coroutine:
/// the payload is the handle of the operation, which can be taken out
/// once.
#[derive(Debug, PartialEq, Eq)]
pub struct TaskWrapper(pub Option<usize>);

/// The identity of the initializer of the marker's type.
pub const TASK_INIT: usize = 2;

/// The identity of the marker's index dispatcher.
pub const TASK_INDEX: usize = 3;

/// The identity of the marker's dispatcher of writes.
pub const TASK_NEWINDEX: usize = 4;

/// The identity of the marker's finalizer.
pub const TASK_GC: usize = 5;

/// The identity of the marker's length operator.
pub const TASK_LEN: usize = 6;

impl TaskWrapper {
    /// Takes the pending operation out. The first time gives the
    /// operation; from then on the marker is empty and taking is an
    /// error.
    pub fn take(&mut self) -> (r: Result<usize, Error>)
        ensures
            final(self).0.is_none(),
            match r {
                Ok(task) => old(self).0 == Some(task),
                Err(e) => old(self).0.is_none() && e@ == ErrorView::Runtime(
                    "task is already moved".spec_bytes(),
                ),
            },
    {
        match self.0 {
            Some(task) => {
                self.0 = None;
                Ok(task)
            },
            None => Err(Error::runtime("task is already moved")),
        }
    }
}

impl UserData for TaskWrapper {
    open spec fn spec_tname() -> Seq<u8> {
        "llua::TaskWrapper".spec_bytes()
    }

    open spec fn spec_policy() -> Policy {
        Policy::spec_standard()
    }

    open spec fn spec_entries() -> Entries {
        Entries {
            init: TASK_INIT,
            index: TASK_INDEX,
            newindex: TASK_NEWINDEX,
            gc: TASK_GC,
            len: TASK_LEN,
        }
    }

    open spec fn spec_size() -> usize {
        16
    }

    open spec fn spec_methods(pre: StateView, mt: int) -> StateView {
        pre
    }

    open spec fn spec_getter(pre: StateView, fields: int) -> StateView {
        pre
    }

    open spec fn spec_setter(pre: StateView, fields: int) -> StateView {
        pre
    }

    open spec fn spec_key_to_cache(&self) -> usize {
        0
    }

    open spec fn spec_address(&self) -> usize {
        match self.0 {
            Some(task) => task,
            None => 0,
        }
    }

    proof fn lemma_callbacks(pre: StateView, t: int) {
        lemma_extends_refl(pre);
    }

    fn tname() -> (n: Vec<u8>) {
        text("llua::TaskWrapper")
    }

    fn policy() -> (p: Policy) {
        Policy::standard()
    }

    fn entries() -> (e: Entries) {
        Entries {
            init: TASK_INIT,
            index: TASK_INDEX,
            newindex: TASK_NEWINDEX,
            gc: TASK_GC,
            len: TASK_LEN,
        }
    }

    fn size() -> (n: usize) {
        16
    }

    fn methods(s: &mut State, mt: &ValRef) {
        proof {
            lemma_extends_refl(s@);
        }
    }

    fn getter(s: &mut State, fields: &ValRef) {
        proof {
            lemma_extends_refl(s@);
        }
    }

    fn setter(s: &mut State, fields: &ValRef) {
        proof {
            lemma_extends_refl(s@);
        }
    }

    fn key_to_cache(&self) -> (k: usize) {
        0
    }

    fn address(&self) -> (a: usize) {
        match self.0 {
            Some(task) => task,
            None => 0,
        }
    }
}

/// What taking the pending operation out of the marker at `idx` gives:
/// the operation, or the error for a value that is no marker or for a
/// marker that is empty.
pub open spec fn spec_taken(s: StateView, idx: int) -> Result<usize, ErrorView> {
    match crate::object::spec_user_ref::<TaskWrapper>(s, idx) {
        None => Err(ErrorView::Runtime("coroutine task expect a TaskWrapper".spec_bytes())),
        Some(task) => if task == 0 {
            Err(ErrorView::Runtime("task is already moved".spec_bytes()))
        } else {
            Ok(task)
        },
    }
}

/// The context after the pending operation is taken out of the marker at
/// `idx`: the marker is empty; a failed attempt changes nothing.
pub open spec fn spec_after_take(s: StateView, idx: int) -> StateView {
    match spec_taken(s, idx) {
        Ok(_) => {
            let u = s.userdata_at(idx).unwrap();
            s.with_heap(
                s.heap.with_userdata(
                    u,
                    Userdata { target: 0, inline: Some(0), ..s.heap.userdata[u as int] },
                ),
            )
        },
        Err(_) => s,
    }
}

/// The error for a yield whose value is no marker of a pending operation.
pub fn no_marker() -> (e: Error)
    ensures
        e@ == ErrorView::Runtime("coroutine task expect a TaskWrapper".spec_bytes()),
{
    Error::runtime("coroutine task expect a TaskWrapper")
}

/// Takes the pending operation out of the marker at `idx`.
pub fn take_task(s: &mut State, idx: i32) -> (r: Result<usize, Error>)
    requires
        old(s).wf(),
    ensures
        final(s)@ == spec_after_take(old(s)@, idx as int),
        match r {
            Ok(task) => spec_taken(old(s)@, idx as int) == Ok::<usize, ErrorView>(task),
            Err(e) => spec_taken(old(s)@, idx as int) == Err::<usize, ErrorView>(e@),
        },
        final(s).wf(),
{
    match s.test_userdata_meta_(idx, TASK_INIT) {
        None => Err(no_marker()),
        Some(task) => {
            if task == 0 {
                Err(Error::runtime("task is already moved"))
            } else {
                let u = s.userdata_at(idx).unwrap();
                let o = s.heap.get_userdata(u).unwrap();
                s.heap.set_userdata(u, Userdata { target: 0, inline: Some(0), ..o });
                Ok(task)
            }
        },
    }
}

/// Single extraction: once the pending operation was taken out of a
/// marker, taking it out again is the error "task is already moved"; it
/// never gives the operation a second time.
pub proof fn lemma_taken_once(s: StateView, idx: int)
    requires
        spec_taken(s, idx) is Ok,
    ensures
        spec_taken(spec_after_take(s, idx), idx) == Err::<usize, ErrorView>(
            ErrorView::Runtime("task is already moved".spec_bytes()),
        ),
        spec_after_take(spec_after_take(s, idx), idx) == spec_after_take(s, idx),
{
    let u = s.userdata_at(idx).unwrap();
    let a = spec_after_take(s, idx);
    assert(a.userdata_at(idx) == Some(u));
    assert(a.heap.userdata[u as int].meta == s.heap.userdata[u as int].meta);
    assert(a.registered(TASK_INIT) == s.registered(TASK_INIT));
}

/// The context after a native function has yielded the pending operation
/// `task`: the marker that carries it is the one value yielded.
pub open spec fn spec_yielded(pre: StateView, task: usize) -> StateView {
    spec_exposed::<TaskWrapper>(pre, 0, task, true)
}

/// Suspends the running native function on the pending host operation
/// `task`: pushes the marker that carries it and yields that one value.
pub fn yield_task(s: &mut State, task: usize) -> (o: Outcome)
    requires
        old(s).wf(),
        old(s)@.has_room(OBJECT_ROOM as int),
        spec_type_ready::<TaskWrapper>(old(s)@),
        task != 0,
    ensures
        o == Outcome::Yield(1),
        final(s)@ == spec_yielded(old(s)@, task),
        final(s)@.stack == old(s)@.stack.push(final(s)@.peek(0)),
        final(s).wf(),
{
    expose::<TaskWrapper>(s, 0, task, true);
    Outcome::Yield(1)
}

/// What was yielded can be taken out: the marker that a native function
/// yields gives the pending operation when the driver takes it out, and
/// only once.
pub proof fn lemma_yielded_taken(pre: StateView, task: usize)
    requires
        pre.heap.tables.len() >= 1,
        spec_type_ready::<TaskWrapper>(pre),
        task != 0,
    ensures
        spec_taken(spec_yielded(pre, task), -1) == Ok::<usize, ErrorView>(task),
        spec_taken(spec_after_take(spec_yielded(pre, task), -1), -1) == Err::<usize, ErrorView>(
            ErrorView::Runtime("task is already moved".spec_bytes()),
        ),
{
    crate::object::lemma_exposed_reads_back::<TaskWrapper>(pre, 0, task, true);
    lemma_taken_once(spec_yielded(pre, task), -1);
}

/// Bridges a call of a host function that starts a pending operation:
/// the arguments are read from index 1 on, the function is called with
/// them and gives the handle of the operation, and the native function
/// yields the marker that carries it.
pub fn call_async<T: FromLuaMulti, F: FnOnce(T) -> usize>(s: &mut State, f: F) -> (r: Result<
    Outcome,
    Error,
>)
    requires
        old(s).wf(),
        old(s)@.has_room(OBJECT_ROOM as int),
        spec_type_ready::<TaskWrapper>(old(s)@),
        forall|t: T| call_requires(f, (t,)),
        forall|t: T, task: usize| call_ensures(f, (t,), task) ==> task != 0,
    ensures
        final(s).wf(),
        match r {
            Ok(o) => exists|t: T, task: usize|
                {
                    &&& T::spec_from_lua_multi(old(s)@, 1) == Some(t.deep_view())
                    &&& #[trigger] call_ensures(f, (t,), task)
                    &&& o == Outcome::Yield(1)
                    &&& final(s)@ == spec_yielded(old(s)@, task)
                },
            Err(e) => {
                &&& final(s)@ == old(s)@
                &&& T::spec_check_error(old(s)@, 1) == Some(e@)
            },
        },
{
    // a multi-value stands for few cells: their indices are in range
    let _cells = T::count();
    let args = match T::check(s, 1) {
        Ok(t) => t,
        Err(e) => {
            return Err(e);
        },
    };
    let ghost t0 = args;
    let task = f(args);
    proof {
        assert(call_ensures(f, (t0,), task));
    }
    Ok(yield_task(s, task))
}

/// The states of the suspension bridge.
#[derive(Clone, Copy, Debug, PartialEq, Eq, Structural)]
pub enum BridgeState {
    /// The coroutine runs, or is about to be resumed.
    Running,
    /// The coroutine has yielded a pending operation, which the driver
    /// completes.
    Suspended,
    /// The coroutine has finished; its results are on its stack.
    CompletedOk,
    /// The coroutine has failed, or broke the protocol.
    CompletedError,
}

/// What the driver is to do next.
#[derive(Debug, PartialEq, Eq)]
pub enum Step {
    /// Resume the coroutine with the top `nargs` cells as arguments.
    Resume { nargs: i32 },
    /// Complete the pending operation `task`, which may push values, and
    /// report what it produced.
    Await { task: usize },
    /// The call is over, with the number of results or with the error.
    Done(Result<i32, Error>),
}

/// One asynchronous call of a coroutine, driven from outside.
#[derive(Clone, Copy, Debug, PartialEq, Eq, Structural)]
pub struct AsyncCall {
    /// The state of the bridge.
    pub state: BridgeState,
    /// The height of the coroutine's stack below the arguments of the
    /// call.
    pub base: i32,
    /// The number of results that the caller asked for.
    pub nresult: i32,
    /// The height of the coroutine's stack when the pending operation was
    /// taken out.
    pub mark: i32,
}

/// The stack after a pending operation has completed: of what it pushed
/// above `mark`, the last `n` cells stay; where it pushed fewer, nil
/// fills up to `n`.
pub open spec fn spec_reinjected(stack: Seq<Slot>, mark: int, n: int) -> Seq<Slot> {
    let produced = stack.len() - mark;
    if produced >= n {
        stack.subrange(0, mark) + stack.subrange(stack.len() - n, stack.len() as int)
    } else {
        spec_resized(stack, mark + n)
    }
}

/// What is done to the stack when a pending operation has completed.
#[derive(Clone, Copy, Debug, PartialEq, Eq, Structural)]
pub enum Reinjection {
    /// The operation pushed more than its results: the `extra` cells
    /// below the results are taken out.
    Drop { extra: i32 },
    /// The operation pushed fewer cells than it has results: `missing`
    /// times nil is pushed.
    Fill { missing: i32 },
}

/// What is done to a stack of height `top` when a pending operation that
/// was taken out at height `mark` has completed with `n` results.
pub open spec fn spec_reinjection(top: int, mark: int, n: int) -> Reinjection {
    if top - mark > n {
        Reinjection::Drop { extra: (top - mark - n) as i32 }
    } else {
        Reinjection::Fill { missing: (n - (top - mark)) as i32 }
    }
}

/// What is done to a stack of height `top` when a pending operation that
/// was taken out at height `mark` has completed with `n` results.
pub fn reinjection(top: i32, mark: i32, n: i32) -> (r: Reinjection)
    requires
        0 <= mark <= top <= MAX_STACK,
        0 <= n <= MAX_STACK,
    ensures
        r == spec_reinjection(top as int, mark as int, n as int),
{
    let delta: i32 = top - mark - n;
    if delta > 0 {
        Reinjection::Drop { extra: delta }
    } else {
        Reinjection::Fill { missing: -delta }
    }
}

/// The message that the interpreter left on top of the stack with an
/// error; empty where the top holds no string.
pub open spec fn spec_error_message(s: StateView) -> Seq<u8> {
    match s.bytes_at(-1) {
        Some(b) => b,
        None => Seq::empty(),
    }
}

/// The order of suspensions: an operation is awaited only by a running
/// call, a suspended call only runs again or ends with an error, and a
/// call that is over stays over.
pub open spec fn spec_may_follow(a: BridgeState, b: BridgeState) -> bool {
    match a {
        BridgeState::Running => true,
        BridgeState::Suspended => b == BridgeState::Running || b == BridgeState::CompletedError,
        BridgeState::CompletedOk => false,
        BridgeState::CompletedError => false,
    }
}

/// The error value of a failed call with the interpreter's traceback:
/// the message, a line break, and the traceback.
pub open spec fn spec_traced(message: Seq<u8>, traceback: Seq<u8>) -> Seq<u8> {
    message + "\n".spec_bytes() + traceback
}

/// The error value of a failed call with the interpreter's traceback.
pub fn traced(message: &[u8], traceback: &[u8]) -> (m: Vec<u8>)
    ensures
        m@ == spec_traced(message@, traceback@),
{
    let mut m: Vec<u8> = Vec::new();
    crate::text::append(&mut m, message);
    crate::text::append_str(&mut m, "\n");
    crate::text::append(&mut m, traceback);
    proof {
        assert(m@ =~= spec_traced(message@, traceback@));
    }
    m
}

/// What a resume asks of the driver, by its status alone.
#[derive(Clone, Copy, Debug, PartialEq, Eq, Structural)]
pub enum Resumed {
    /// The coroutine yielded: the one value yielded is the marker of a
    /// pending operation, which is to be taken out and popped.
    Marker,
    /// The coroutine finished: its stack is to be cut to the height `top`.
    Finish { top: i32 },
    /// The coroutine failed: the error value on top of its stack is to be
    /// read, with a traceback.
    Failed,
}

impl AsyncCall {
    /// Begins a call of the function that lies below `nargs` arguments on
    /// a stack of height `top`: the next step is to resume the coroutine.
    pub fn start(top: i32, nargs: i32, nresult: i32) -> (r: (AsyncCall, Step))
        requires
            0 <= nargs <= top,
            0 <= nresult,
        ensures
            r.0 == (AsyncCall {
                state: BridgeState::Running,
                base: (top - nargs) as i32,
                nresult,
                mark: 0,
            }),
            r.1 == (Step::Resume { nargs }),
    {
        let base: i32 = top - nargs;
        (AsyncCall { state: BridgeState::Running, base, nresult, mark: 0 }, Step::Resume { nargs })
    }

    /// Begins a call of the function that lies on the coroutine's stack
    /// below `nargs` arguments: the next step is to resume the coroutine.
    pub fn begin(s: &State, nargs: i32, nresult: i32) -> (r: (AsyncCall, Step))
        requires
            s.wf(),
            0 <= nargs <= s@.top(),
            0 <= nresult,
        ensures
            r.0 == (AsyncCall {
                state: BridgeState::Running,
                base: (s@.top() - nargs) as i32,
                nresult,
                mark: 0,
            }),
            r.1 == (Step::Resume { nargs }),
    {
        Self::start(s.get_top(), nargs, nresult)
    }

    /// What the status of a resume asks of the driver.
    pub open spec fn spec_on_status(&self, status: ThreadStatus) -> Resumed {
        match status {
            ThreadStatus::Yield => Resumed::Marker,
            ThreadStatus::Success => Resumed::Finish { top: (self.base - 1 + self.nresult) as i32 },
            _ => Resumed::Failed,
        }
    }

    /// What the status of a resume asks of the driver: after a yield the
    /// marker is taken out, after success the stack is cut to the results
    /// that the caller asked for, which lie where the function of the
    /// call lay, and an error status ends the call with the error of its
    /// kind.
    pub fn on_status(&self, status: ThreadStatus) -> (r: Resumed)
        requires
            self.state == BridgeState::Running,
            status == ThreadStatus::Success ==> 1 <= self.base && 0 <= self.nresult && self.base
                - 1 + self.nresult <= MAX_STACK,
        ensures
            r == self.spec_on_status(status),
            r is Failed <==> status.spec_is_err(),
    {
        match status {
            ThreadStatus::Yield => Resumed::Marker,
            ThreadStatus::Success => Resumed::Finish { top: self.base - 1 + self.nresult },
            _ => Resumed::Failed,
        }
    }

    /// The pending operation was taken out of the marker and the marker
    /// popped, which left the stack at the height `mark`: the call is
    /// suspended until the operation has completed.
    pub fn suspended(&mut self, mark: i32)
        requires
            old(self).state == BridgeState::Running,
        ensures
            *final(self) == (AsyncCall { state: BridgeState::Suspended, mark, ..*old(self) }),
    {
        self.mark = mark;
        self.state = BridgeState::Suspended;
    }

    /// The coroutine finished and its stack was cut: the call is over,
    /// with the number of results that the caller asked for.
    pub fn finished(&mut self) -> (step: Step)
        requires
            old(self).state == BridgeState::Running,
        ensures
            *final(self) == (AsyncCall { state: BridgeState::CompletedOk, ..*old(self) }),
            step == Step::Done(Ok(old(self).nresult)),
    {
        self.state = BridgeState::CompletedOk;
        Step::Done(Ok(self.nresult))
    }

    /// The call is over with the error `e`: the marker could not be taken
    /// out, or the pending operation failed.
    pub fn broken(&mut self, e: Error) -> (step: Step)
        requires
            old(self).state == BridgeState::Running || old(self).state == BridgeState::Suspended,
        ensures
            *final(self) == (AsyncCall { state: BridgeState::CompletedError, ..*old(self) }),
            step matches Step::Done(Err(x)) && x@ == e@,
    {
        self.state = BridgeState::CompletedError;
        Step::Done(Err(e))
    }

    /// The coroutine failed with the error status `status`: the call is
    /// over with the error of the status's kind, whose message is the
    /// error value that the interpreter left, `message`, with the
    /// interpreter's `traceback`.
    pub fn failed(&mut self, status: ThreadStatus, message: &[u8], traceback: &[u8]) -> (step:
        Step)
        requires
            old(self).state == BridgeState::Running,
            status.spec_is_err(),
        ensures
            *final(self) == (AsyncCall { state: BridgeState::CompletedError, ..*old(self) }),
            step matches Step::Done(Err(x)) && Some(x@) == spec_status_error(
                status,
                spec_traced(message@, traceback@),
            ),
    {
        self.state = BridgeState::CompletedError;
        match Error::from_status(status, traced(message, traceback)) {
            Err(e) => Step::Done(Err(e)),
            Ok(()) => Step::Done(Err(Error::ConvertFailed)),
        }
    }

    /// The step after the results of a pending operation are in place: the
    /// coroutine is resumed with the `n` results as the values of its
    /// yield.
    pub fn resume_with(&self, n: i32) -> (step: Step)
        ensures
            step == (Step::Resume { nargs: n }),
    {
        Step::Resume { nargs: n }
    }

    /// The pending operation has completed, on a stack of height `top`,
    /// with the number of its results or with its error. After a success
    /// the answer is what to do to the stack, so that exactly the results
    /// lie above what it held when the operation was taken out; the call
    /// runs again, and the coroutine is to be resumed with the results.
    /// An error ends the call.
    pub fn produced(&mut self, top: i32, produced: Result<i32, Error>) -> (r: Result<
        Reinjection,
        Error,
    >)
        requires
            old(self).state == BridgeState::Suspended,
            0 <= old(self).mark <= top <= MAX_STACK,
            produced matches Ok(n) ==> 0 <= n <= MAX_STACK,
        ensures
            match produced {
                Ok(n) => {
                    &&& r == Ok::<Reinjection, Error>(
                        spec_reinjection(top as int, old(self).mark as int, n as int),
                    )
                    &&& *final(self) == (AsyncCall { state: BridgeState::Running, ..*old(self) })
                },
                Err(e) => {
                    &&& (r matches Err(x) && x@ == e@)
                    &&& *final(self) == (AsyncCall {
                        state: BridgeState::CompletedError,
                        ..*old(self)
                    })
                },
            },
    {
        match produced {
            Ok(n) => {
                self.state = BridgeState::Running;
                Ok(reinjection(top, self.mark, n))
            },
            Err(e) => {
                self.state = BridgeState::CompletedError;
                Err(e)
            },
        }
    }

    /// Takes in what a resume of the coroutine reported, on the
    /// coroutine's stack.
    ///
    /// A yield must carry exactly one value, the marker of a pending
    /// operation: the operation is taken out, the marker is popped, and
    /// the driver is to complete the operation. A value that is no marker,
    /// or a marker that is empty, ends the call with a runtime error.
    /// Success ends the call: the stack is cut to the results that the
    /// caller asked for. An error status ends the call with the error of
    /// its kind: its message is the error value on top of the stack with
    /// the `traceback` that the interpreter gives for the coroutine.
    pub fn resumed(
        &mut self,
        s: &mut State,
        status: ThreadStatus,
        nres: i32,
        traceback: &[u8],
    ) -> (step: Step)
        requires
            old(self).state == BridgeState::Running,
            old(s).wf(),
            status == ThreadStatus::Yield ==> nres == 1 && old(s)@.top() >= 1,
            status == ThreadStatus::Success ==> 1 <= old(self).base && 0 <= old(self).nresult
                && old(self).base - 1 + old(self).nresult <= MAX_STACK,
        ensures
            final(s).wf(),
            final(self).base == old(self).base,
            final(self).nresult == old(self).nresult,
            spec_may_follow(old(self).state, final(self).state),
            final(self).state != BridgeState::Running,
            match status {
                ThreadStatus::Yield => match spec_taken(old(s)@, -1) {
                    Ok(task) => {
                        &&& step == Step::Await { task }
                        &&& final(self).state == BridgeState::Suspended
                        &&& final(s)@ == spec_after_take(old(s)@, -1).popped(1)
                        &&& final(self).mark == old(s)@.top() - 1
                    },
                    Err(e) => {
                        &&& (step matches Step::Done(Err(x)) && x@ == e)
                        &&& final(self).state == BridgeState::CompletedError
                        &&& final(s)@ == old(s)@
                    },
                },
                ThreadStatus::Success => {
                    &&& step == Step::Done(Ok(old(self).nresult))
                    &&& final(self).state == BridgeState::CompletedOk
                    &&& final(s)@ == old(s)@.with_stack(
                        spec_resized(old(s)@.stack, old(self).base - 1 + old(self).nresult),
                    )
                },
                _ => {
                    &&& (step matches Step::Done(Err(x)) && Some(x@) == spec_status_error(
                        status,
                        spec_traced(spec_error_message(old(s)@), traceback@),
                    ))
                    &&& final(self).state == BridgeState::CompletedError
                    &&& final(s)@ == old(s)@
                },
            },
    {
        match self.on_status(status) {
            Resumed::Marker => {
                match take_task(s, -1) {
                    Ok(task) => {
                        // pop the marker
                        s.pop(1);
                        self.suspended(s.get_top());
                        Step::Await { task }
                    },
                    Err(e) => self.broken(e),
                }
            },
            Resumed::Finish { top } => {
                // the function of the coroutine was popped as well
                s.set_top(top);
                self.finished()
            },
            Resumed::Failed => {
                let msg = match s.to_bytes(-1) {
                    Some(b) => crate::heap::bytes_to_vec(b.as_slice()),
                    None => Vec::new(),
                };
                self.failed(status, msg.as_slice(), traceback)
            },
        }
    }

    /// Takes in what the pending operation produced, on the coroutine's
    /// stack: the number of values that are its results, above whatever
    /// else it pushed, or its error.
    ///
    /// After a success exactly the results lie above what the stack held
    /// when the operation was taken out, and the driver is to resume the
    /// coroutine with them. An error ends the call.
    pub fn completed(&mut self, s: &mut State, produced: Result<i32, Error>) -> (step: Step)
        requires
            old(self).state == BridgeState::Suspended,
            old(s).wf(),
            0 <= old(self).mark <= old(s)@.top(),
            produced matches Ok(n) ==> 0 <= n && old(self).mark + n <= MAX_STACK,
        ensures
            final(s).wf(),
            final(self).base == old(self).base,
            final(self).nresult == old(self).nresult,
            spec_may_follow(old(self).state, final(self).state),
            match produced {
                Ok(n) => {
                    &&& step == Step::Resume { nargs: n }
                    &&& final(self).state == BridgeState::Running
                    &&& final(s)@ == old(s)@.with_stack(
                        spec_reinjected(old(s)@.stack, old(self).mark as int, n as int),
                    )
                    &&& final(s)@.top() == old(self).mark + n
                },
                Err(e) => {
                    &&& (step matches Step::Done(Err(x)) && x@ == e@)
                    &&& final(self).state == BridgeState::CompletedError
                    &&& final(s)@ == old(s)@
                },
            },
    {
        let nargs: i32 = match produced {
            Ok(n) => n,
            Err(_) => 0,
        };
        let mark: i32 = self.mark;
        match self.produced(s.get_top(), produced) {
            Ok(plan) => {
                // keep the last of what the operation pushed
                match plan {
                    Reinjection::Drop { extra } => {
                        s.rotate(mark + 1, -extra);
                        s.pop(extra);
                        proof {
                            let st = old(s)@.stack;
                            assert(s@.stack =~= spec_reinjected(st, mark as int, nargs as int));
                        }
                    },
                    Reinjection::Fill { missing } => {
                        s.set_top(mark + nargs);
                        proof {
                            let st = old(s)@.stack;
                            if missing == 0 {
                                assert(spec_resized(st, mark + nargs) =~= st);
                                assert(st =~= st.subrange(0, mark as int) + st.subrange(
                                    st.len() - nargs,
                                    st.len() as int,
                                ));
                            }
                        }
                    },
                }
                self.resume_with(nargs)
            },
            Err(e) => Step::Done(Err(e)),
        }
    }
}

} // verus!
