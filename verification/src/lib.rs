//! A verified core for embedding a stack-based scripting interpreter:
//! value marshalling, stack discipline, opaque objects, native-call
//! bridging and cooperative suspension, stated over a mathematical model
//! of the interpreter's value stack and heap.
//!
//! The interpreter itself is not part of this crate. What is here is the
//! layer between a host and an interpreter: every rule of that layer is a
//! function with a contract, and the contracts are proved.
//!
//! - [`state`], [`state_tables`], [`stack`], [`heap`], [`table`] and
//!   [`slot`]: the stack accessor, over a value stack and a heap of
//!   strings, tables, opaque objects and native closures.
//! - [`convert`], [`convert_int`], [`convert_num`], [`convert_multi`],
//!   [`convert_tuple`], [`iter`] and [`bytes`]: the value conversion
//!   protocol, with the laws that what is pushed reads back.
//! - [`userdata`], [`object`] and [`dispatch`]: the opaque object model,
//!   from the metatable that is built once per type to the order in which
//!   a read of a key is served.
//! - [`function`], [`call`], [`protect`] and [`register`]: native function
//!   bridging and the boundary of a protected call.
//! - [`suspend`] and [`coroutine`]: the suspension bridge.
//! - [`number`], [`numeral`] and [`intconv`]: numbers between the
//!   interpreter's integers and floats and the host's integer types, and
//!   the strings that are read as integers.
//! - [`mirror`]: primitive values across the edge of a native
//!   interpreter, for a driver that reads them off its stack.
//!
//! Running scripts, awaiting operations and calling host functions by
//! their entry points are the work of whoever drives the interpreter; the
//! crate says what is to be done before and after. Each decision on the
//! way is also offered over plain values (a status, the type of what was
//! found, a height), for a driver whose stack is not the model's.

pub mod bytes;
pub mod call;
pub mod convert;
pub mod convert_int;
pub mod convert_multi;
pub mod convert_num;
pub mod convert_tuple;
pub mod coroutine;
pub mod diag;
pub mod dispatch;
pub mod error;
pub mod function;
pub mod heap;
pub mod intconv;
pub mod iter;
pub mod lua;
pub mod mirror;
pub mod number;
pub mod numeral;
pub mod object;
pub mod protect;
pub mod register;
pub mod registry;
pub mod slot;
pub mod stack;
pub mod state;
pub mod state_tables;
pub mod status;
pub mod suspend;
pub mod table;
pub mod text;
pub mod userdata;
pub mod value;

pub use crate::bytes::ByteBuf;
pub use crate::call::Frame;
pub use crate::convert::{
    AnyVal, FromLua, NilVal, Pushed, RoundTrip, StackRef, Strict, StrictBool, ToLua, TopVal,
};
pub use crate::convert_multi::{ErrorText, FromLuaMulti, ToLuaMulti};
pub use crate::convert_num::Number;
pub use crate::coroutine::Coroutine;
pub use crate::dispatch::{Dispatch, Finalize, Stage, Verdict, WriteVerdict};
pub use crate::error::Error;
pub use crate::function::{Outcome, Relocation, RsFn};
pub use crate::heap::{Heap, Userdata};
pub use crate::iter::{BoxIter, IterMap, IterVec};
pub use crate::lua::Lua;
pub use crate::object::{Exposure, UserDataWrapper, UserRef};
pub use crate::protect::{BalanceState, ProtectedCall};
pub use crate::register::{LibEntry, MethodRegistry, MethodRegistryMut};
pub use crate::registry::{CRegRef, CRegVal, Reference};
pub use crate::slot::Slot;
pub use crate::stack::{Index, Stack};
pub use crate::state::State;
pub use crate::status::{Arithmetic, Comparison, GcOption, ThreadStatus, Type};
pub use crate::suspend::{AsyncCall, BridgeState, Step, TaskWrapper};
pub use crate::userdata::{Entries, NativeFn, Policy, UserData};
pub use crate::value::{ValRef, Value};
