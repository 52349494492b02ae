//! The errors of building, of running and of seeking.

use crate::{Binding, Call, Constant};
use vstd::prelude::*;

verus! {

/// An I/O error of the standard library, carried through as it came.
#[verifier::external_type_specification]
#[verifier::external_body]
pub struct ExIoError(std::io::Error);

/// Calls `std::error::Error::description` on an I/O error. What text comes
/// back depends on the error: nothing is claimed of it.
#[verifier::external_body]
#[allow(deprecated)]
fn io_description(error: &std::io::Error) -> (text: &str) {
    std::error::Error::description(error)
}

/// Error while building an executable.
#[derive(Debug)]
pub enum BuildError {
    /// The template names a function that the host did not supply.
    FunctionNotFound { required: String },
    /// No stored executable goes by this id.
    ExecutableNotFound { id: String },
}

impl BuildError {
    /// The short description of each kind of error.
    pub open spec fn describes(&self) -> Seq<char> {
        match self {
            BuildError::FunctionNotFound { .. } => "function not found"@,
            BuildError::ExecutableNotFound { .. } => "executable not found"@,
        }
    }

    pub fn description(&self) -> (text: &str)
        ensures
            text@ == self.describes(),
    {
        match self {
            BuildError::FunctionNotFound { .. } => "function not found",
            BuildError::ExecutableNotFound { .. } => "executable not found",
        }
    }
}

/// Runtime error.
#[derive(Debug)]
pub enum LittleError {
    /// A parameter was required for an instruction, but it was not found.
    ParameterMissing(Constant),
    /// A constant was required for an instruction, but it was not found.
    ConstantMissing(Constant),
    /// A call was required for an instruction, but it was not found.
    CallMissing(Call),
    /// A call has returned an error.
    CallError(String),
    /// I/O error writing template result to output.
    OutputError(std::io::Error),
    /// Attempt to pop values on empty stack.
    StackUnderflow,
    /// Instruction has caused an interupt, it is up to user to know how to handle it.
    Interupt,
    /// A property was required for an instruction, but the value has none by that name.
    PropertyMissing,
    /// A binding lies beyond the number of values that a stream may hold.
    BindingLimit(Binding),
    /// A read has run as many instructions as it may.
    StepLimit,
}

impl LittleError {
    /// The short description of each kind of error. A call's error
    /// describes itself.
    pub open spec fn describes(&self) -> Seq<char> {
        match self {
            LittleError::ParameterMissing(_) => "parameter is missing"@,
            LittleError::ConstantMissing(_) => "constant is missing"@,
            LittleError::CallMissing(_) => "call is missing"@,
            LittleError::CallError(e) => e@,
            LittleError::OutputError(_) => "output error"@,
            LittleError::StackUnderflow => "stack underflow"@,
            LittleError::Interupt => "interupt"@,
            LittleError::PropertyMissing => "property is missing"@,
            LittleError::BindingLimit(_) => "too many values"@,
            LittleError::StepLimit => "step limit reached"@,
        }
    }

    pub fn description(&self) -> (text: &str)
        ensures
            text@ == self.describes(),
    {
        match self {
            LittleError::ParameterMissing(_) => "parameter is missing",
            LittleError::ConstantMissing(_) => "constant is missing",
            LittleError::CallMissing(_) => "call is missing",
            LittleError::CallError(e) => e.as_str(),
            LittleError::OutputError(_) => "output error",
            LittleError::StackUnderflow => "stack underflow",
            LittleError::Interupt => "interupt",
            LittleError::PropertyMissing => "property is missing",
            LittleError::BindingLimit(_) => "too many values",
            LittleError::StepLimit => "step limit reached",
        }
    }
}

/// Error while performing seek.
#[derive(Debug)]
pub enum SeekError {
    /// Out of bound operation on container.
    OutOfBounds(u32),
    /// I/O error in underlying stream.
    Io(std::io::Error),
}

impl SeekError {
    /// The short description of a seek out of bounds; an I/O error
    /// describes itself.
    pub fn description(&self) -> (text: &str)
        ensures
            self is OutOfBounds ==> text@ == "out of bounds"@,
    {
        match self {
            SeekError::OutOfBounds(_) => "out of bounds",
            SeekError::Io(e) => io_description(e),
        }
    }
}

} // verus!
