//! Runtime values.
//!
//! A value is a small tagged word. Numbers carry their IEEE-754 binary64 bit
//! pattern; strings, functions, closures and lifted cells carry an index into
//! the arena that owns them (the interned string table, the program's
//! function table, and the virtual machine's closure and cell arenas), so a
//! value itself is always plain data.

use vstd::prelude::*;

verus! {

#[derive(Clone, Copy, PartialEq, Eq, Structural, Debug)]
pub enum Value {
    Nil,
    Bool(bool),
    /// A number, as IEEE-754 binary64 bits.
    Number(u64),
    /// An immutable string, as an index into the string table.
    Str(usize),
    /// A compiled function, as an index into the program's function table.
    Fun(usize),
    /// A closure, as an index into the virtual machine's closure arena.
    Closure(usize),
    /// An alias to a captured stack slot, as an index into the cell arena.
    Lifted(usize),
    /// The built-in clock function.
    NativeClock,
}

/// Nil and false are falsy; every other value is truthy.
pub open spec fn spec_falsy(v: Value) -> bool {
    v == Value::Nil || v == Value::Bool(false)
}

/// A value that is not an alias to a cell.
pub open spec fn spec_plain(v: Value) -> bool {
    !(v is Lifted)
}

impl Value {
    pub fn is_falsy(&self) -> (r: bool)
        ensures
            r == spec_falsy(*self),
    {
        match self {
            Value::Nil => true,
            Value::Bool(b) => !*b,
            _ => false,
        }
    }

    pub fn is_number(&self) -> (r: bool)
        ensures
            r == (*self is Number),
    {
        matches!(self, Value::Number(_))
    }

    pub fn is_string(&self) -> (r: bool)
        ensures
            r == (*self is Str),
    {
        matches!(self, Value::Str(_))
    }

    pub fn is_bool(&self) -> (r: bool)
        ensures
            r == (*self is Bool),
    {
        matches!(self, Value::Bool(_))
    }

    pub fn is_closure(&self) -> (r: bool)
        ensures
            r == (*self is Closure),
    {
        matches!(self, Value::Closure(_))
    }
}

} // verus!
