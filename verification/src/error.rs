//! The errors that the host sees, and how the interpreter's statuses map
//! onto them.

use vstd::prelude::*;
use vstd::string::StringSliceAdditionalSpecFns;
use crate::heap::bytes_to_vec;
use crate::status::ThreadStatus;

verus! {

/// An error as the host sees it. Messages are byte strings, as the
/// interpreter's own strings are.
#[derive(Debug, PartialEq, Eq)]
pub enum Error {
    /// A runtime error, with the interpreter's message.
    Runtime(Vec<u8>),
    /// The interpreter ran out of memory.
    Memory(Vec<u8>),
    /// A chunk failed to compile.
    Syntax(Vec<u8>),
    /// A finalizer failed.
    Gc(Vec<u8>),
    /// A coroutine yielded where a result was expected.
    Yield,
    /// Pushing a host value failed; the payload describes the failure.
    Convert(Vec<u8>),
    /// A value on the stack could not be read as the expected host type.
    ConvertFailed,
    /// Any other failure, described by the payload.
    Else(Vec<u8>),
}

/// The mathematical content of an [`Error`].
pub enum ErrorView {
    Runtime(Seq<u8>),
    Memory(Seq<u8>),
    Syntax(Seq<u8>),
    Gc(Seq<u8>),
    Yield,
    Convert(Seq<u8>),
    ConvertFailed,
    Else(Seq<u8>),
}

impl ErrorView {
    /// The message or payload that the error carries; empty where it
    /// carries none.
    pub open spec fn message(self) -> Seq<u8> {
        match self {
            ErrorView::Runtime(m) => m,
            ErrorView::Memory(m) => m,
            ErrorView::Syntax(m) => m,
            ErrorView::Gc(m) => m,
            ErrorView::Yield => Seq::empty(),
            ErrorView::Convert(m) => m,
            ErrorView::ConvertFailed => Seq::empty(),
            ErrorView::Else(m) => m,
        }
    }
}

impl View for Error {
    type V = ErrorView;

    open spec fn view(&self) -> ErrorView {
        match self {
            Error::Runtime(m) => ErrorView::Runtime(m@),
            Error::Memory(m) => ErrorView::Memory(m@),
            Error::Syntax(m) => ErrorView::Syntax(m@),
            Error::Gc(m) => ErrorView::Gc(m@),
            Error::Yield => ErrorView::Yield,
            Error::Convert(m) => ErrorView::Convert(m@),
            Error::ConvertFailed => ErrorView::ConvertFailed,
            Error::Else(m) => ErrorView::Else(m@),
        }
    }
}

/// The bytes of a piece of text.
pub fn text(s: &str) -> (v: Vec<u8>)
    ensures
        v@ == s.spec_bytes(),
{
    bytes_to_vec(s.as_bytes())
}

/// The error that a status stands for, given the message that the
/// interpreter left with it; `None` for the success status.
pub open spec fn spec_status_error(ts: ThreadStatus, message: Seq<u8>) -> Option<ErrorView> {
    match ts {
        ThreadStatus::Success => None,
        ThreadStatus::Yield => Some(ErrorView::Yield),
        ThreadStatus::RuntimeError => Some(ErrorView::Runtime(message)),
        ThreadStatus::MessageHandlerError => Some(ErrorView::Runtime(message)),
        ThreadStatus::FileError => Some(ErrorView::Runtime(message)),
        ThreadStatus::GcError => Some(ErrorView::Gc(message)),
        ThreadStatus::SyntaxError => Some(ErrorView::Syntax(message)),
        ThreadStatus::MemoryError => Some(ErrorView::Memory(message)),
    }
}

impl Error {
    /// An error of no particular kind, described by `dbg`.
    pub fn from_debug(dbg: &str) -> (e: Error)
        ensures
            e@ == ErrorView::Else(dbg.spec_bytes()),
    {
        Error::Else(text(dbg))
    }

    /// A failed conversion, described by `dbg`.
    pub fn convert(dbg: &str) -> (e: Error)
        ensures
            e@ == ErrorView::Convert(dbg.spec_bytes()),
    {
        Error::Convert(text(dbg))
    }

    /// A runtime error with the message `s`.
    pub fn runtime(s: &str) -> (e: Error)
        ensures
            e@ == ErrorView::Runtime(s.spec_bytes()),
    {
        Error::Runtime(text(s))
    }

    /// The message or payload that the error carries; empty where it
    /// carries none.
    pub open spec fn spec_message(&self) -> Seq<u8> {
        self@.message()
    }

    /// The message or payload that the error carries; empty where it
    /// carries none.
    pub fn message(&self) -> (m: Vec<u8>)
        ensures
            m@ == self.spec_message(),
    {
        match self {
            Error::Runtime(m) => bytes_to_vec(m.as_slice()),
            Error::Memory(m) => bytes_to_vec(m.as_slice()),
            Error::Syntax(m) => bytes_to_vec(m.as_slice()),
            Error::Gc(m) => bytes_to_vec(m.as_slice()),
            Error::Yield => Vec::new(),
            Error::Convert(m) => bytes_to_vec(m.as_slice()),
            Error::ConvertFailed => Vec::new(),
            Error::Else(m) => bytes_to_vec(m.as_slice()),
        }
    }

    /// Maps a status onto the host's errors: success is no error, a yield
    /// is `Yield`, and each error status takes the interpreter's message
    /// into the variant of its kind.
    pub fn from_status(ts: ThreadStatus, message: Vec<u8>) -> (r: Result<(), Error>)
        ensures
            match r {
                Ok(()) => spec_status_error(ts, message@).is_none(),
                Err(e) => spec_status_error(ts, message@) == Some(e@),
            },
    {
        match ts {
            ThreadStatus::Success => Ok(()),
            ThreadStatus::Yield => Err(Error::Yield),
            ThreadStatus::RuntimeError | ThreadStatus::MessageHandlerError => Err(
                Error::Runtime(message),
            ),
            ThreadStatus::GcError => Err(Error::Gc(message)),
            ThreadStatus::SyntaxError => Err(Error::Syntax(message)),
            ThreadStatus::MemoryError => Err(Error::Memory(message)),
            ThreadStatus::FileError => Err(Error::Runtime(message)),
        }
    }
}

} // verus!
