//! An execution engine for a two-dimensional, stack-based language in the
//! style of Befunge-93.
//!
//! A program is a fixed canvas of characters. A cursor walks over it in one
//! of four directions; each cell it meets is either a command that works on a
//! stack of integers and on the cursor, or, in string mode, a character to
//! push. The engine performs no I/O of its own: input is fed to it as
//! characters, and what the program prints is collected for the caller.

pub mod arith;
pub mod decimal;
pub mod error;
pub mod grid;
pub mod input;
pub mod interpreter;
pub mod pointer;
pub mod stack;
