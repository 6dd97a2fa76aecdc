use vstd::prelude::*;

verus! {

/// Why a step of a program could not be carried out.
///
/// A stack that runs empty is no error: a pop from it yields `0`.
#[derive(Copy, Clone, Debug, PartialEq, Eq, Structural)]
pub enum ExecutionError {
    /// The cell under the cursor holds a character that is no command.
    UnknownCommand(char),
    /// A value popped as a character is not the code point of any character.
    InvalidCharacterCode(i32),
    /// The line read by `&` is not a decimal integer that fits the stack.
    InputParseError,
    /// `~` asked for a character and the input holds none.
    InputExhausted,
    /// A step was asked of a program that has halted.
    NotRunning,
    /// `/` or `%` was asked to divide by zero.
    DivisionByZero,
    /// The result of `+`, `-`, `*`, `/` or `%` does not fit the stack.
    Overflow,
}

} // verus!
