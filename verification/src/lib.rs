//! A miniature virtual machine for a reduced dialect of a well-known
//! bytecode class-file format.
//!
//! The library has two halves: a class-file parser (`read_class`) that turns a
//! big-endian byte stream into a constant pool and a method table, and a
//! bytecode interpreter (`opcode`, `jvm`) that executes static methods over an
//! operand stack, a local-variable frame, and a heap of integer arrays.
//! Every failure mode is a value of [`VmError`]; the library never panics.

#![allow(non_camel_case_types)]

use vstd::prelude::*;

pub mod jvm;
pub mod opcode;
pub mod read_class;
pub mod stack;

verus! {

/// Every fatal condition the machine can encounter, at load time or at run
/// time.  There is no recoverable error channel: callers are expected to stop
/// on any of these.
#[derive(Clone, Copy, Debug, PartialEq, Eq, Structural)]
pub enum VmError {
    /// The byte stream ended before a read completed.
    UnexpectedEnd,
    /// The leading four bytes were not the class-file magic value.
    BadMagic,
    /// A constant-pool tag byte named no known constant kind.
    UnknownConstantTag,
    /// A text constant held a byte outside the ASCII range.
    NonAsciiText,
    /// The class declared one or more interfaces.
    InterfacesUnsupported,
    /// The class declared one or more fields.
    FieldsUnsupported,
    /// A method other than a constructor lacked the static access flag.
    NonStaticMethod,
    /// A method carried two code attributes.
    DuplicateCode,
    /// A method carried no code attribute.
    MissingCode,
    /// A constant-pool index was zero or past the end of the pool.
    InvalidConstantIndex,
    /// A constant resolved to a different kind than the context required.
    ConstantTypeMismatch,
    /// A method descriptor had no parenthesized parameter list.
    BadDescriptor,
    /// A push was attempted on a full operand stack.
    StackOverflow,
    /// A pop was attempted on an empty operand stack.
    StackUnderflow,
    /// The divisor of an integer division or remainder was zero.
    DivisionByZero,
    /// An array access lay outside the bounds of the array.
    ArrayIndexOutOfBounds,
    /// An array reference named no array in the heap.
    InvalidReference,
    /// A local-variable slot index lay outside the frame.
    InvalidLocalIndex,
    /// An opcode byte named no supported instruction.
    InvalidOpcode,
    /// An instruction operand lay beyond the end of the code array.
    CodeOutOfBounds,
    /// A branch target lay before the start of the code array.
    BranchOutOfRange,
    /// A shift amount lay outside 0..=31.
    ShiftOutOfRange,
    /// The operand of `newarray` was not the int-array type tag.
    BadArrayType,
    /// The element count popped by `newarray` was negative.
    NegativeArraySize,
    /// The heap can hold no further array.
    TooManyArrays,
    /// An invoked method was not present in the method table.
    MethodNotFound,
    /// The step budget was exhausted before the method returned.
    OutOfFuel,
    /// No `main` method with the expected descriptor exists.
    MissingMain,
    /// `main` returned a value instead of void.
    MainReturnedValue,
}

/// The runtime-semantic errors: those execution itself can raise, as opposed
/// to load-time errors and the driver's own two.
pub open spec fn is_runtime_error(e: VmError) -> bool {
    ||| e == VmError::StackOverflow
    ||| e == VmError::StackUnderflow
    ||| e == VmError::DivisionByZero
    ||| e == VmError::ArrayIndexOutOfBounds
    ||| e == VmError::InvalidReference
    ||| e == VmError::InvalidLocalIndex
    ||| e == VmError::InvalidOpcode
    ||| e == VmError::CodeOutOfBounds
    ||| e == VmError::BranchOutOfRange
    ||| e == VmError::ShiftOutOfRange
    ||| e == VmError::BadArrayType
    ||| e == VmError::NegativeArraySize
    ||| e == VmError::TooManyArrays
    ||| e == VmError::MethodNotFound
    ||| e == VmError::OutOfFuel
    ||| e == VmError::InvalidConstantIndex
    ||| e == VmError::ConstantTypeMismatch
    ||| e == VmError::BadDescriptor
}

} // verus!
