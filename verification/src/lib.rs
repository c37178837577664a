//! A bytecode compiler and virtual machine for a small dynamically-typed
//! scripting language in the Lox family.
//!
//! Source text is scanned into tokens, compiled in a single pass by a Pratt
//! parser into bytecode chunks, and executed by a stack-based virtual machine
//! with call frames, closures and upvalues.

pub mod bytes;
pub mod numbers;
pub mod value;
pub mod chunk;
pub mod scanner;
pub mod compiler;
pub mod vm;
