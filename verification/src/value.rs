//! Runtime values and runtime failures of the stack machine.

use vstd::prelude::*;

verus! {

/// A value living on the runtime stack.
#[derive(Clone, Copy, Debug, PartialEq, Eq, Structural)]
pub enum Value {
    Integer(i32),
    InstructionPointer(u32),
}

/// The type tag of a runtime value.
#[derive(Clone, Copy, Debug, PartialEq, Eq, Structural)]
pub enum Type {
    Integer,
    InstructionPointer,
}

/// A fatal interpreter failure; the machine aborts with it.
#[derive(Clone, Copy, Debug, PartialEq, Eq, Structural)]
pub enum RuntimeError {
    /// A pop was attempted on an empty stack.
    EmptyStack,
    /// A stack slot outside the current stack was addressed.
    OutOfBoundStackAccess,
    /// An opcode found a value of the wrong type.
    TypeMismatch { expected: Type, found: Type },
    /// `f_stop` executed while the stack did not hold exactly one value.
    StackNotSingleton,
    /// The instruction pointer left the program.
    OutOfBoundInstructionAccess,
    /// The step budget of one run was spent without reaching `f_stop`.
    StepLimitExceeded,
}

impl Value {
    /// The type tag of this value.
    pub open spec fn spec_type(self) -> Type {
        match self {
            Value::Integer(_) => Type::Integer,
            Value::InstructionPointer(_) => Type::InstructionPointer,
        }
    }

    /// The type tag of this value.
    pub fn type_(&self) -> (t: Type)
        ensures
            t == self.spec_type(),
    {
        match self {
            Value::Integer(_) => Type::Integer,
            Value::InstructionPointer(_) => Type::InstructionPointer,
        }
    }

    /// The integer held by this value, or a type mismatch.
    pub fn try_into_integer(self) -> (r: Result<i32, RuntimeError>)
        ensures
            match r {
                Ok(v) => self == Value::Integer(v),
                Err(e) => !(self is Integer) && e == (RuntimeError::TypeMismatch {
                    expected: Type::Integer,
                    found: self.spec_type(),
                }),
            },
    {
        match self {
            Value::Integer(v) => Ok(v),
            _ => Err(
                RuntimeError::TypeMismatch { expected: Type::Integer, found: self.type_() },
            ),
        }
    }

    /// The instruction pointer held by this value, or a type mismatch.
    pub fn try_into_instruction_pointer(self) -> (r: Result<u32, RuntimeError>)
        ensures
            match r {
                Ok(v) => self == Value::InstructionPointer(v),
                Err(e) => !(self is InstructionPointer) && e == (RuntimeError::TypeMismatch {
                    expected: Type::InstructionPointer,
                    found: self.spec_type(),
                }),
            },
    {
        match self {
            Value::InstructionPointer(ip) => Ok(ip),
            _ => Err(
                RuntimeError::TypeMismatch {
                    expected: Type::InstructionPointer,
                    found: self.type_(),
                },
            ),
        }
    }

    /// Whether this value is an instruction pointer.
    pub fn is_instruction_pointer(&self) -> (r: bool)
        ensures
            r == (self is InstructionPointer),
    {
        match self {
            Value::InstructionPointer(_) => true,
            _ => false,
        }
    }
}

} // verus!
