//! The two error taxonomies: fatal chunk-loading failures and script-level
//! execution failures surfaced out of the stepping engine.
use vstd::prelude::*;

verus! {

/// The header field on which validation failed.
#[derive(Debug, Clone, Copy, PartialEq, Eq, Structural)]
pub enum HeaderField {
    Signature,
    Version,
    FormatVersion,
    Data,
    SizeOfInt,
    SizeOfSizeT,
    SizeOfInstruction,
    SizeOfInteger,
    SizeOfNumber,
    IntegerSentinel,
    NumberSentinel,
}

/// Parse-time failure. Always fatal: the chunk format has no tolerance for
/// corruption, so loading aborts at the first offending field.
#[derive(Debug, Clone, Copy, PartialEq, Eq, Structural)]
pub enum LoadError {
    /// A read ran past the end of the input.
    UnexpectedEof,
    /// A header field deviates from the single supported profile.
    HeaderMismatch(HeaderField),
    /// A constant-pool entry carries a tag outside the loadable set.
    UnsupportedConstantType(u8),
    /// An instruction word names an opcode the decoder does not know.
    UnknownOpcode(u32),
    /// A boolean constant encoded by a byte other than 0 or 1.
    InvalidBoolean(u8),
    /// A vararg flag byte outside the supported set.
    UnsupportedVararg(u8),
    /// A length-prefixed string with a stored length of zero.
    InvalidStringLength,
    /// A required string was marked absent.
    MissingString,
}

/// Execution-time failure: the scripted program (or the chunk it was loaded
/// from) is at fault, never the engine; `step` surfaces these as values.
#[derive(Debug, Clone, Copy, PartialEq, Eq, Structural)]
pub enum RuntimeError {
    /// An arithmetic or bitwise operand was not a number.
    NotANumber,
    /// A bitwise or unary integer operation met a value without an integer
    /// representation.
    NoIntegerRepresentation,
    /// An order comparison between values that are not both numbers.
    NotComparable,
    /// `LEN` applied to a value whose length is not defined here.
    InvalidLenOperand,
    /// `CONCAT` over a value that is not a string.
    NotConcatenable,
    /// Integer division or modulus by zero.
    DivisionByZero,
    /// A shift amount outside the width of an integer.
    ShiftOutOfRange,
    /// A register or stack slot outside the live window.
    RegisterOutOfRange,
    /// A constant-pool index outside the pool.
    ConstantOutOfRange,
    /// An upvalue index outside the resolved upvalue list.
    UpvalueOutOfRange,
    /// A nested-prototype index outside the prototype table.
    PrototypeOutOfRange,
    /// The program counter left the instruction list.
    ProgramCounterOutOfRange,
    /// A call through a value that is not a function.
    NotCallable,
    /// Indexing a value that is not a table.
    NotATable,
    /// A table key that is nil or has no exact comparison.
    InvalidTableKey,
    /// The `assert` native saw a missing or falsy first argument.
    AssertionFailed,
    /// A native needed an argument that was not supplied.
    MissingArgument,
    /// A numeric for-loop register that is not an integer.
    InvalidForLoop,
    /// `step` was called while a host-computed result is still pending.
    HostResultPending,
    /// A resume call arrived although no host computation was requested.
    NoHostResultPending,
    /// The executed-instruction counter reached its machine limit.
    InstructionCountOverflow,
}

} // verus!
