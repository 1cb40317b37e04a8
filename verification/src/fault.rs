//! Faults: why an instruction cannot run. Every fault ends the program.

use vstd::prelude::*;

verus! {

/// The five arithmetic operations.
#[derive(Debug, Clone, Copy, PartialEq, Eq, Structural)]
pub enum Arith {
    Add,
    Sub,
    Mul,
    Div,
    Mod,
}

/// What an instruction asks a stack for.
#[derive(Debug, Clone, Copy, PartialEq, Eq, Structural)]
pub enum Wanted {
    /// An integer.
    Int,
    /// A string.
    Str,
}

/// Why an instruction could not run. Every fault ends the program.
#[derive(Debug, Clone, PartialEq, Eq)]
pub enum Fault {
    /// A value was asked of an empty stack.
    EmptyStack(Wanted),
    /// An integer was asked for and the value on the stack, which is given,
    /// is not the text of one.
    NotAnInteger(String),
    /// A move to the left of the leftmost stack.
    LeftmostStack,
    /// A division or a remainder by zero.
    DivisionByZero(Arith),
    /// The result of the arithmetic operation does not fit in 64 signed bits.
    Overflow(Arith),
    /// The integer is the code of no character.
    InvalidChar(i64),
    /// The text has no character at the index.
    IndexOutOfRange { text: String, index: i64 },
    /// A jump to a label that the program does not define.
    UnknownLabel(String),
    /// A word that is neither an operation nor a label of the program.
    UnknownInstruction(String),
    /// The program counter cannot move past the largest index.
    CounterOverflow,
}

/// A fault, with its texts as sequences of characters.
pub enum FaultView {
    EmptyStack(Wanted),
    NotAnInteger(Seq<char>),
    LeftmostStack,
    DivisionByZero(Arith),
    Overflow(Arith),
    InvalidChar(i64),
    IndexOutOfRange { text: Seq<char>, index: i64 },
    UnknownLabel(Seq<char>),
    UnknownInstruction(Seq<char>),
    CounterOverflow,
}

impl View for Fault {
    type V = FaultView;

    open spec fn view(&self) -> FaultView {
        match *self {
            Fault::EmptyStack(wanted) => FaultView::EmptyStack(wanted),
            Fault::NotAnInteger(text) => FaultView::NotAnInteger(text@),
            Fault::LeftmostStack => FaultView::LeftmostStack,
            Fault::DivisionByZero(op) => FaultView::DivisionByZero(op),
            Fault::Overflow(op) => FaultView::Overflow(op),
            Fault::InvalidChar(code) => FaultView::InvalidChar(code),
            Fault::IndexOutOfRange { text, index } => FaultView::IndexOutOfRange { text: text@, index },
            Fault::UnknownLabel(name) => FaultView::UnknownLabel(name@),
            Fault::UnknownInstruction(name) => FaultView::UnknownInstruction(name@),
            Fault::CounterOverflow => FaultView::CounterOverflow,
        }
    }
}

} // verus!
