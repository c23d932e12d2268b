use calc_rs::{create_expression, Expression, Operation};

fn slots(words: &[&str]) -> Vec<String> {
    words.iter().map(|w| w.to_string()).collect()
}

fn expression(first: &str, operation: Operation, second: &str) -> Option<Expression> {
    Some(Expression { first: first.to_string(), operation, second: second.to_string() })
}

#[test]
fn each_symbol_selects_its_operation() {
    assert_eq!(Operation::from_symbol('+'), Some(Operation::Add));
    assert_eq!(Operation::from_symbol('-'), Some(Operation::Subtract));
    assert_eq!(Operation::from_symbol('*'), Some(Operation::Multiply));
    assert_eq!(Operation::from_symbol('/'), Some(Operation::Divide));
    assert_eq!(Operation::from_symbol('^'), Some(Operation::Exponent));
    assert_eq!(Operation::from_symbol('#'), Some(Operation::SquareRoot));
}

#[test]
fn no_other_character_selects_an_operation() {
    let symbols = ['+', '-', '*', '/', '^', '#'];
    for code in 0..=0x10FFFFu32 {
        if let Some(c) = char::from_u32(code) {
            assert_eq!(Operation::from_symbol(c).is_some(), symbols.contains(&c), "U+{:04X}", code);
        }
    }
}

#[test]
fn an_operator_token_is_known_by_its_first_character() {
    assert_eq!(Operation::from_token("+"), Some(Operation::Add));
    assert_eq!(Operation::from_token("+5"), Some(Operation::Add));
    assert_eq!(Operation::from_token("+foo"), Some(Operation::Add));
    assert_eq!(Operation::from_token("#-"), Some(Operation::SquareRoot));
    assert_eq!(Operation::from_token("x+"), None);
    assert_eq!(Operation::from_token(""), None);
    assert_eq!(Operation::from_token("\u{2212}"), None);
}

#[test]
fn builds_each_binary_operation() {
    assert_eq!(create_expression(slots(&["3", "+", "4"])), expression("3", Operation::Add, "4"));
    assert_eq!(create_expression(slots(&["3", "-", "4"])), expression("3", Operation::Subtract, "4"));
    assert_eq!(create_expression(slots(&["3", "*", "4"])), expression("3", Operation::Multiply, "4"));
    assert_eq!(create_expression(slots(&["10", "/", "4"])), expression("10", Operation::Divide, "4"));
    assert_eq!(create_expression(slots(&["2", "^", "10"])), expression("2", Operation::Exponent, "10"));
}

#[test]
fn keeps_the_operands_as_written() {
    assert_eq!(
        create_expression(slots(&["-1.50e+3", "*", "+Infinity"])),
        expression("-1.50e+3", Operation::Multiply, "+Infinity")
    );
}

#[test]
fn a_square_root_takes_zero_for_its_second_operand() {
    assert_eq!(create_expression(slots(&["9", "#", ""])), expression("9", Operation::SquareRoot, "0"));
    assert_eq!(create_expression(slots(&["9", "#", "16"])), expression("9", Operation::SquareRoot, "0"));
    assert_eq!(create_expression(slots(&["9", "#", "junk"])), expression("9", Operation::SquareRoot, "0"));
    assert_eq!(create_expression(slots(&["9", "#", "nan"])), expression("9", Operation::SquareRoot, "0"));
}

#[test]
fn a_square_root_still_needs_its_operand() {
    assert_eq!(create_expression(slots(&["", "#", ""])), None);
    assert_eq!(create_expression(slots(&["x", "#", "4"])), None);
    assert_eq!(create_expression(slots(&["nan", "#", "4"])), None);
}

#[test]
fn a_longer_operator_token_is_accepted() {
    assert_eq!(create_expression(slots(&["1", "+5", "2"])), expression("1", Operation::Add, "2"));
    assert_eq!(create_expression(slots(&["1", "*/", "2"])), expression("1", Operation::Multiply, "2"));
}

#[test]
fn an_unknown_operator_is_refused() {
    assert_eq!(create_expression(slots(&["3", "&", "2"])), None);
    assert_eq!(create_expression(slots(&["3", "", "2"])), None);
    assert_eq!(create_expression(slots(&["3", "x+", "2"])), None);
    assert_eq!(create_expression(slots(&["3", "4", "2"])), None);
}

#[test]
fn a_bad_operand_is_refused() {
    assert_eq!(create_expression(slots(&["abc", "+", "2"])), None);
    assert_eq!(create_expression(slots(&["2", "+", "abc"])), None);
    assert_eq!(create_expression(slots(&["5x", "+", "2"])), None);
    assert_eq!(create_expression(slots(&["2", "+", ""])), None);
    assert_eq!(create_expression(slots(&["", "+", "2"])), None);
    assert_eq!(create_expression(slots(&["nan", "+", "2"])), None);
    assert_eq!(create_expression(slots(&["2", "+", "NaN"])), None);
}

#[test]
fn more_than_three_slots_are_refused() {
    assert_eq!(create_expression(slots(&["1", "+", "2", "3"])), None);
    assert_eq!(create_expression(slots(&["1", "+", "2", "3", "4"])), None);
    assert_eq!(create_expression(slots(&["1", "+", "2", ""])), None);
}

#[test]
fn fewer_than_three_slots_are_refused() {
    assert_eq!(create_expression(slots(&[])), None);
    assert_eq!(create_expression(slots(&["1"])), None);
    assert_eq!(create_expression(slots(&["1", "+"])), None);
    assert_eq!(create_expression(slots(&["9", "#"])), None);
}
