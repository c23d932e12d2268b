//! The operations of the calculator and the symbols that select them.

use vstd::prelude::*;

verus! {

/// What the calculator can do with its operands. `SquareRoot` works on the
/// first operand alone.
#[derive(Clone, Copy, Debug, PartialEq, Eq, Structural)]
pub enum Operation {
    Add,
    Subtract,
    Multiply,
    Divide,
    Exponent,
    SquareRoot,
}

/// The operation that the symbol `c` selects, if any. Symbols are matched
/// exactly.
pub open spec fn operation_of(c: char) -> Option<Operation> {
    if c == '+' {
        Some(Operation::Add)
    } else if c == '-' {
        Some(Operation::Subtract)
    } else if c == '*' {
        Some(Operation::Multiply)
    } else if c == '/' {
        Some(Operation::Divide)
    } else if c == '^' {
        Some(Operation::Exponent)
    } else if c == '#' {
        Some(Operation::SquareRoot)
    } else {
        None
    }
}

/// The operation that an operator token selects: that of its first
/// character, whatever follows it; none for the empty token.
pub open spec fn operator_of(token: Seq<char>) -> Option<Operation> {
    if token.len() == 0 {
        None
    } else {
        operation_of(token[0])
    }
}

impl Operation {
    /// The symbol that selects this operation.
    pub open spec fn symbol(self) -> char {
        match self {
            Operation::Add => '+',
            Operation::Subtract => '-',
            Operation::Multiply => '*',
            Operation::Divide => '/',
            Operation::Exponent => '^',
            Operation::SquareRoot => '#',
        }
    }

    /// The operation for a symbol.
    pub fn from_symbol(c: char) -> (r: Option<Operation>)
        ensures
            r == operation_of(c),
    {
        if c == '+' {
            Some(Operation::Add)
        } else if c == '-' {
            Some(Operation::Subtract)
        } else if c == '*' {
            Some(Operation::Multiply)
        } else if c == '/' {
            Some(Operation::Divide)
        } else if c == '^' {
            Some(Operation::Exponent)
        } else if c == '#' {
            Some(Operation::SquareRoot)
        } else {
            None
        }
    }

    /// The operation for an operator token.
    pub fn from_token(token: &str) -> (r: Option<Operation>)
        ensures
            r == operator_of(token@),
    {
        if token.is_empty() {
            None
        } else {
            Operation::from_symbol(token.get_char(0))
        }
    }
}

/// Every operation is selected by its own symbol, and by no other.
pub proof fn lemma_symbol_selects(c: char, operation: Operation)
    ensures
        operation_of(c) == Some(operation) <==> c == operation.symbol(),
{
}

} // verus!
