//! An expression, and how three slots of text become one.

use crate::number::{all_digits, is_decimal, is_operand, unsigned, valid_operand};
use crate::operation::{operator_of, Operation};
use vstd::prelude::*;

verus! {

/// An operand, an operation and a second operand.
///
/// The operands are kept as the text that was entered; `well_formed` says
/// that each is written as a number.
#[derive(Debug, PartialEq, Eq)]
pub struct Expression {
    pub first: String,
    pub operation: Operation,
    pub second: String,
}

/// An expression as a mathematical value.
pub struct ExpressionView {
    pub first: Seq<char>,
    pub operation: Operation,
    pub second: Seq<char>,
}

impl View for Expression {
    type V = ExpressionView;

    open spec fn view(&self) -> ExpressionView {
        ExpressionView { first: self.first@, operation: self.operation, second: self.second@ }
    }
}

/// The text of the second operand of an operation that reads none: zero.
pub open spec fn neutral() -> Seq<char> {
    seq!['0']
}

impl ExpressionView {
    /// Both operands are written as numbers, and the second operand of a
    /// square root is the neutral one.
    pub open spec fn well_formed(self) -> bool {
        &&& is_operand(self.first)
        &&& is_operand(self.second)
        &&& self.operation == Operation::SquareRoot ==> self.second == neutral()
    }
}

/// The expression that a sequence of slots holds, if it holds one.
///
/// There must be exactly three slots: the first operand, the operator and
/// the second operand. The operator must select an operation. A square root
/// takes zero for its second operand, whatever the third slot holds; then
/// both operands must be written as numbers.
pub open spec fn parse(slots: Seq<Seq<char>>) -> Option<ExpressionView> {
    if slots.len() != 3 {
        None
    } else {
        match operator_of(slots[1]) {
            None => None,
            Some(operation) => {
                let second = if operation == Operation::SquareRoot {
                    neutral()
                } else {
                    slots[2]
                };
                if is_operand(slots[0]) && is_operand(second) {
                    Some(ExpressionView { first: slots[0], operation, second })
                } else {
                    None
                }
            },
        }
    }
}

/// The view of an optional expression.
pub open spec fn view_of(expression: Option<Expression>) -> Option<ExpressionView> {
    match expression {
        Some(e) => Some(e@),
        None => None,
    }
}

/// Builds the expression that `args` holds, or reports that it holds none.
pub fn create_expression(args: Vec<String>) -> (expression: Option<Expression>)
    ensures
        view_of(expression) == parse(args.deep_view()),
        expression matches Some(e) ==> e@.well_formed(),
{
    let mut args = args;
    let ghost slots = args.deep_view();
    if args.len() != 3 {
        return None;
    }
    assert(slots[0] == args@[0]@ && slots[1] == args@[1]@ && slots[2] == args@[2]@);
    let third = args.pop().unwrap();
    let operator = args.pop().unwrap();
    let first = args.pop().unwrap();
    match Operation::from_token(operator.as_str()) {
        None => None,
        Some(operation) => {
            let second = match operation {
                Operation::SquareRoot => {
                    proof {
                        reveal_strlit("0");
                        assert("0"@ =~= neutral());
                    }
                    String::from_str("0")
                },
                _ => third,
            };
            if valid_operand(first.as_str()) && valid_operand(second.as_str()) {
                Some(Expression { first, operation, second })
            } else {
                None
            }
        },
    }
}

/// Whatever `parse` accepts is well formed: no expression holds an operand
/// that is not written as a number.
pub proof fn lemma_parse_well_formed(slots: Seq<Seq<char>>)
    ensures
        parse(slots) matches Some(e) ==> e.well_formed(),
{
    lemma_neutral_is_operand();
}

/// The neutral operand is written as a number.
pub proof fn lemma_neutral_is_operand()
    ensures
        is_operand(neutral()),
{
    assert(unsigned(neutral()) == neutral());
    assert(all_digits(neutral()));
    assert(is_decimal(neutral()));
}

/// More than three slots hold no expression; nor do fewer.
pub proof fn lemma_parse_counts_slots(slots: Seq<Seq<char>>)
    requires
        slots.len() != 3,
    ensures
        parse(slots) is None,
{
}

/// A square root does not read the third slot: two sequences of three
/// slots that agree on the operand and on an operator that selects the
/// square root hold the same expression, or both hold none.
pub proof fn lemma_square_root_ignores_second(
    first: Seq<char>,
    operator: Seq<char>,
    second: Seq<char>,
    other: Seq<char>,
)
    requires
        operator_of(operator) == Some(Operation::SquareRoot),
    ensures
        parse(seq![first, operator, second]) == parse(seq![first, operator, other]),
        parse(seq![first, operator, second]) is Some <==> is_operand(first),
{
    lemma_neutral_is_operand();
}

/// An operator is known by its first character alone.
pub proof fn lemma_operator_by_first_character(operator: Seq<char>, tail: Seq<char>)
    requires
        operator.len() > 0,
    ensures
        operator_of(operator + tail) == operator_of(operator),
{
    assert((operator + tail)[0] == operator[0]);
}

} // verus!
