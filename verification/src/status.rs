//! Status codes and value classifications reported by the interpreter,
//! together with the numeric codes they carry across the native boundary.

use vstd::prelude::*;

verus! {

/// Arithmetic operations understood by the interpreter.
#[derive(Clone, Copy, Debug, PartialEq, Eq, Structural)]
pub enum Arithmetic {
    Add,
    Sub,
    Mul,
    Mod,
    Pow,
    Div,
    IDiv,
    BAnd,
    BOr,
    BXor,
    Shl,
    Shr,
    Unm,
    BNot,
}

impl Arithmetic {
    /// The operation's numeric code.
    pub open spec fn spec_code(self) -> int {
        match self {
            Arithmetic::Add => 0,
            Arithmetic::Sub => 1,
            Arithmetic::Mul => 2,
            Arithmetic::Mod => 3,
            Arithmetic::Pow => 4,
            Arithmetic::Div => 5,
            Arithmetic::IDiv => 6,
            Arithmetic::BAnd => 7,
            Arithmetic::BOr => 8,
            Arithmetic::BXor => 9,
            Arithmetic::Shl => 10,
            Arithmetic::Shr => 11,
            Arithmetic::Unm => 12,
            Arithmetic::BNot => 13,
        }
    }

    /// The operation's numeric code.
    pub fn code(self) -> (c: i32)
        ensures
            c == self.spec_code(),
    {
        match self {
            Arithmetic::Add => 0,
            Arithmetic::Sub => 1,
            Arithmetic::Mul => 2,
            Arithmetic::Mod => 3,
            Arithmetic::Pow => 4,
            Arithmetic::Div => 5,
            Arithmetic::IDiv => 6,
            Arithmetic::BAnd => 7,
            Arithmetic::BOr => 8,
            Arithmetic::BXor => 9,
            Arithmetic::Shl => 10,
            Arithmetic::Shr => 11,
            Arithmetic::Unm => 12,
            Arithmetic::BNot => 13,
        }
    }

    /// Whether the operation takes a single operand.
    pub fn is_unary(self) -> (r: bool)
        ensures
            r == (self == Arithmetic::Unm || self == Arithmetic::BNot),
    {
        matches!(self, Arithmetic::Unm | Arithmetic::BNot)
    }
}

/// Comparison operations understood by the interpreter.
#[derive(Clone, Copy, Debug, PartialEq, Eq, Structural)]
pub enum Comparison {
    Eq,
    Lt,
    Le,
}

impl Comparison {
    /// The comparison's numeric code.
    pub open spec fn spec_code(self) -> int {
        match self {
            Comparison::Eq => 0,
            Comparison::Lt => 1,
            Comparison::Le => 2,
        }
    }

    /// The comparison's numeric code.
    pub fn code(self) -> (c: i32)
        ensures
            c == self.spec_code(),
    {
        match self {
            Comparison::Eq => 0,
            Comparison::Lt => 1,
            Comparison::Le => 2,
        }
    }
}

/// Status of an execution context after a call, a load or a resume.
#[derive(Clone, Copy, Debug, PartialEq, Eq, Structural)]
pub enum ThreadStatus {
    Success,
    Yield,
    RuntimeError,
    SyntaxError,
    MemoryError,
    GcError,
    MessageHandlerError,
    FileError,
}

impl ThreadStatus {
    /// The status that a numeric code stands for, if any.
    pub open spec fn spec_from_code(i: int) -> Option<ThreadStatus> {
        if i == 0 {
            Some(ThreadStatus::Success)
        } else if i == 1 {
            Some(ThreadStatus::Yield)
        } else if i == 2 {
            Some(ThreadStatus::RuntimeError)
        } else if i == 3 {
            Some(ThreadStatus::SyntaxError)
        } else if i == 4 {
            Some(ThreadStatus::MemoryError)
        } else if i == 5 {
            Some(ThreadStatus::GcError)
        } else if i == 6 {
            Some(ThreadStatus::MessageHandlerError)
        } else if i == 7 {
            Some(ThreadStatus::FileError)
        } else {
            None
        }
    }

    /// The status's numeric code.
    pub open spec fn spec_code(self) -> int {
        match self {
            ThreadStatus::Success => 0,
            ThreadStatus::Yield => 1,
            ThreadStatus::RuntimeError => 2,
            ThreadStatus::SyntaxError => 3,
            ThreadStatus::MemoryError => 4,
            ThreadStatus::GcError => 5,
            ThreadStatus::MessageHandlerError => 6,
            ThreadStatus::FileError => 7,
        }
    }

    /// Whether `i` is the code of some status.
    pub fn is_code(i: i32) -> (r: bool)
        ensures
            r == Self::spec_from_code(i as int).is_some(),
            r == (0 <= i <= 7),
    {
        0 <= i && i <= 7
    }

    /// Decodes a status code. Codes outside the known range are a caller
    /// error; `is_code` tells them apart.
    pub fn from_c_int(i: i32) -> (r: ThreadStatus)
        requires
            Self::spec_from_code(i as int).is_some(),
        ensures
            Some(r) == Self::spec_from_code(i as int),
            r.spec_code() == i,
    {
        if i == 0 {
            ThreadStatus::Success
        } else if i == 1 {
            ThreadStatus::Yield
        } else if i == 2 {
            ThreadStatus::RuntimeError
        } else if i == 3 {
            ThreadStatus::SyntaxError
        } else if i == 4 {
            ThreadStatus::MemoryError
        } else if i == 5 {
            ThreadStatus::GcError
        } else if i == 6 {
            ThreadStatus::MessageHandlerError
        } else {
            ThreadStatus::FileError
        }
    }

    /// The status's numeric code.
    pub fn code(self) -> (c: i32)
        ensures
            c == self.spec_code(),
            Self::spec_from_code(c as int) == Some(self),
    {
        match self {
            ThreadStatus::Success => 0,
            ThreadStatus::Yield => 1,
            ThreadStatus::RuntimeError => 2,
            ThreadStatus::SyntaxError => 3,
            ThreadStatus::MemoryError => 4,
            ThreadStatus::GcError => 5,
            ThreadStatus::MessageHandlerError => 6,
            ThreadStatus::FileError => 7,
        }
    }

    /// `true` exactly for the success status.
    pub fn is_ok(self) -> (r: bool)
        ensures
            r == (self == ThreadStatus::Success),
    {
        matches!(self, ThreadStatus::Success)
    }

    /// Whether the status is one of the error kinds.
    pub open spec fn spec_is_err(self) -> bool {
        self != ThreadStatus::Success && self != ThreadStatus::Yield
    }

    /// `true` for the error statuses, `false` for success and yield.
    pub fn is_err(self) -> (r: bool)
        ensures
            r == self.spec_is_err(),
    {
        match self {
            ThreadStatus::RuntimeError
            | ThreadStatus::SyntaxError
            | ThreadStatus::MemoryError
            | ThreadStatus::GcError
            | ThreadStatus::MessageHandlerError
            | ThreadStatus::FileError => true,
            ThreadStatus::Success | ThreadStatus::Yield => false,
        }
    }
}

/// Options for the interpreter's garbage collector.
#[derive(Clone, Copy, Debug, PartialEq, Eq, Structural)]
pub enum GcOption {
    Stop,
    Restart,
    Collect,
    Count,
    CountBytes,
    Step,
    SetPause,
    SetStepMul,
    IsRunning,
}

impl GcOption {
    /// The option's numeric code.
    pub open spec fn spec_code(self) -> int {
        match self {
            GcOption::Stop => 0,
            GcOption::Restart => 1,
            GcOption::Collect => 2,
            GcOption::Count => 3,
            GcOption::CountBytes => 4,
            GcOption::Step => 5,
            GcOption::SetPause => 6,
            GcOption::SetStepMul => 7,
            GcOption::IsRunning => 9,
        }
    }

    /// The option's numeric code.
    pub fn code(self) -> (c: i32)
        ensures
            c == self.spec_code(),
    {
        match self {
            GcOption::Stop => 0,
            GcOption::Restart => 1,
            GcOption::Collect => 2,
            GcOption::Count => 3,
            GcOption::CountBytes => 4,
            GcOption::Step => 5,
            GcOption::SetPause => 6,
            GcOption::SetStepMul => 7,
            GcOption::IsRunning => 9,
        }
    }
}

/// Classification of what a stack index refers to.
#[derive(Clone, Copy, Debug, PartialEq, Eq, Structural)]
pub enum Type {
    /// The index refers to no value at all.
    NoValue,
    Nil,
    Boolean,
    LightUserdata,
    Number,
    String,
    Table,
    Function,
    Userdata,
    Thread,
    /// A code that names no classification.
    Invalid,
}

impl Type {
    /// The classification that a numeric code stands for.
    pub open spec fn spec_from_code(i: int) -> Type {
        if i == -1 {
            Type::NoValue
        } else if i == 0 {
            Type::Nil
        } else if i == 1 {
            Type::Boolean
        } else if i == 2 {
            Type::LightUserdata
        } else if i == 3 {
            Type::Number
        } else if i == 4 {
            Type::String
        } else if i == 5 {
            Type::Table
        } else if i == 6 {
            Type::Function
        } else if i == 7 {
            Type::Userdata
        } else if i == 8 {
            Type::Thread
        } else {
            Type::Invalid
        }
    }

    /// Decodes a classification code; unknown codes give `Invalid`.
    pub fn from_c_int(i: i32) -> (t: Type)
        ensures
            t == Self::spec_from_code(i as int),
    {
        if i == -1 {
            Type::NoValue
        } else if i == 0 {
            Type::Nil
        } else if i == 1 {
            Type::Boolean
        } else if i == 2 {
            Type::LightUserdata
        } else if i == 3 {
            Type::Number
        } else if i == 4 {
            Type::String
        } else if i == 5 {
            Type::Table
        } else if i == 6 {
            Type::Function
        } else if i == 7 {
            Type::Userdata
        } else if i == 8 {
            Type::Thread
        } else {
            Type::Invalid
        }
    }

    /// The classification's numeric code, where it has one.
    pub open spec fn spec_code(self) -> Option<int> {
        match self {
            Type::NoValue => Some(-1),
            Type::Nil => Some(0),
            Type::Boolean => Some(1),
            Type::LightUserdata => Some(2),
            Type::Number => Some(3),
            Type::String => Some(4),
            Type::Table => Some(5),
            Type::Function => Some(6),
            Type::Userdata => Some(7),
            Type::Thread => Some(8),
            Type::Invalid => None,
        }
    }

    /// The classification's numeric code; `Invalid` has none.
    pub fn code(self) -> (c: Option<i32>)
        ensures
            match c {
                Some(i) => self.spec_code() == Some(i as int) && Self::spec_from_code(i as int)
                    == self,
                None => self == Type::Invalid,
            },
    {
        match self {
            Type::NoValue => Some(-1),
            Type::Nil => Some(0),
            Type::Boolean => Some(1),
            Type::LightUserdata => Some(2),
            Type::Number => Some(3),
            Type::String => Some(4),
            Type::Table => Some(5),
            Type::Function => Some(6),
            Type::Userdata => Some(7),
            Type::Thread => Some(8),
            Type::Invalid => None,
        }
    }

    /// Whether the classification is "no value" or nil.
    pub fn is_none_or_nil(&self) -> (r: bool)
        ensures
            r == (*self == Type::NoValue || *self == Type::Nil),
    {
        matches!(*self, Type::NoValue | Type::Nil)
    }
}

} // verus!
