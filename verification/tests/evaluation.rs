use rpd::evaluator::{apply_op, calculate_rpd, CalculationError};
use rpd::operation::OperationType;
use rpd::pipeline::{evaluate, EvaluationError};
use rpd::token::{PolishNotationToken, TokenError};
use std::collections::VecDeque;

fn calculation(error: CalculationError) -> Result<u32, EvaluationError> {
    Err(EvaluationError::Calculation(error))
}

#[test]
fn every_single_digit_is_its_own_value() {
    let digits = ['0', '1', '2', '3', '4', '5', '6', '7', '8', '9'];
    for (value, digit) in digits.iter().enumerate() {
        let line = digit.to_string();
        assert_eq!(evaluate(&line), Ok(value as u32));
    }
}

#[test]
fn digit_among_blanks_is_its_own_value() {
    assert_eq!(evaluate(" 7"), Ok(7));
    assert_eq!(evaluate("  4  "), Ok(4));
}

#[test]
fn four_operators() {
    assert_eq!(evaluate("3 4 +"), Ok(7));
    assert_eq!(evaluate("5 1 -"), Ok(4));
    assert_eq!(evaluate("6 2 *"), Ok(12));
    assert_eq!(evaluate("8 2 /"), Ok(4));
}

#[test]
fn left_operand_comes_first() {
    assert_eq!(evaluate("5 2 -"), Ok(3));
    assert_eq!(evaluate("9 3 /"), Ok(3));
    assert_eq!(evaluate("7 2 /"), Ok(3));
    assert_eq!(evaluate("2 7 /"), Ok(0));
}

#[test]
fn multiplication_glyphs_agree() {
    assert_eq!(evaluate("3 4 x"), Ok(12));
    assert_eq!(evaluate("3 4 X"), Ok(12));
    assert_eq!(evaluate("3 4 *"), Ok(12));
    assert_eq!(evaluate("x"), evaluate("*"));
    assert_eq!(evaluate("2 3 x 4 X $"), evaluate("2 3 * 4 * $"));
}

#[test]
fn digits_need_no_blank_between_them() {
    assert_eq!(evaluate("34+"), Ok(7));
    assert_eq!(evaluate("12"), calculation(CalculationError::IncompleteExpression(2)));
}

#[test]
fn longer_expression() {
    assert_eq!(evaluate("1 2 + 3 4 + *"), Ok(21));
    assert_eq!(evaluate("9 8 7 6 5 - - - -"), Ok(7));
}

#[test]
fn operator_without_numbers() {
    assert_eq!(
        evaluate("+"),
        calculation(CalculationError::NoNumberFoundForOperation(0, OperationType::Addition))
    );
    assert_eq!(
        evaluate("3 /"),
        calculation(CalculationError::NoNumberFoundForOperation(2, OperationType::Division))
    );
    assert_eq!(
        evaluate("3 4 + x"),
        calculation(CalculationError::NoNumberFoundForOperation(
            6,
            OperationType::Multiplication
        ))
    );
}

#[test]
fn first_failing_operator_is_reported() {
    assert_eq!(
        evaluate("- 1 2 3 + +"),
        calculation(CalculationError::NoNumberFoundForOperation(0, OperationType::Subtraction))
    );
}

#[test]
fn leftover_operands() {
    let result = evaluate("1 2 3 +");
    assert_eq!(result, calculation(CalculationError::IncompleteExpression(2)));
    assert_eq!(
        result.unwrap_err().message(),
        "Incomplete expression. 1 tokens unprocessed."
    );
    assert_eq!(evaluate("1 2 3 4"), calculation(CalculationError::IncompleteExpression(4)));
}

#[test]
fn empty_and_blank_lines() {
    assert_eq!(evaluate(""), calculation(CalculationError::NoResultAvailable));
    assert_eq!(evaluate("  "), calculation(CalculationError::NoResultAvailable));
    assert_eq!(evaluate(" "), calculation(CalculationError::NoResultAvailable));
}

#[test]
fn invalid_character() {
    let result = evaluate("3 4 $");
    assert_eq!(
        result,
        Err(EvaluationError::Tokenization(TokenError::InvalidCharacter(4, '$')))
    );
    assert_eq!(
        result.unwrap_err().message(),
        "Invalid character at position 5, \"$\""
    );
}

#[test]
fn invalid_character_comes_before_any_calculation_error() {
    assert_eq!(
        evaluate("+ + a"),
        Err(EvaluationError::Tokenization(TokenError::InvalidCharacter(4, 'a')))
    );
}

#[test]
fn same_line_twice() {
    let lines = ["3 4 +", "+", "1 2 3 +", "", "3 4 $", "0 1 -", "5 0 /"];
    for line in lines {
        let first = evaluate(line);
        let second = evaluate(line);
        assert_eq!(first, second);
    }
}

#[test]
fn division_by_zero_is_an_error() {
    assert_eq!(evaluate("5 0 /"), calculation(CalculationError::DivisionByZero(4)));
    assert_eq!(evaluate("0 0 /"), calculation(CalculationError::DivisionByZero(4)));
    assert_eq!(evaluate("0 5 /"), Ok(0));
}

#[test]
fn negative_difference_is_an_error() {
    assert_eq!(
        evaluate("0 1 -"),
        calculation(CalculationError::ArithmeticOverflow(4, OperationType::Subtraction))
    );
    assert_eq!(evaluate("1 1 -"), Ok(0));
}

#[test]
fn product_too_large_is_an_error() {
    assert_eq!(evaluate("99*9*9*9*9*9*9*9*9*"), Ok(3486784401));
    assert_eq!(
        evaluate("99*9*9*9*9*9*9*9*9*9*"),
        calculation(CalculationError::ArithmeticOverflow(20, OperationType::Multiplication))
    );
}

#[test]
fn sum_too_large_is_an_error() {
    let tokens = vec![
        (0, PolishNotationToken::Number(u32::MAX)),
        (1, PolishNotationToken::Number(1)),
        (2, PolishNotationToken::Operation(OperationType::Addition)),
    ];
    assert_eq!(
        calculate_rpd(tokens),
        Err(CalculationError::ArithmeticOverflow(2, OperationType::Addition))
    );
    let tokens = vec![
        (0, PolishNotationToken::Number(u32::MAX - 1)),
        (1, PolishNotationToken::Number(1)),
        (2, PolishNotationToken::Operation(OperationType::Addition)),
    ];
    assert_eq!(calculate_rpd(tokens), Ok(u32::MAX));
}

#[test]
fn calculate_keeps_the_positions_it_is_given() {
    let tokens = vec![
        (10, PolishNotationToken::Number(1)),
        (20, PolishNotationToken::Space),
        (30, PolishNotationToken::Operation(OperationType::Division)),
    ];
    assert_eq!(
        calculate_rpd(tokens),
        Err(CalculationError::NoNumberFoundForOperation(30, OperationType::Division))
    );
    assert_eq!(calculate_rpd(Vec::new()), Err(CalculationError::NoResultAvailable));
}

#[test]
fn apply_op_replaces_the_two_on_top() {
    let mut stack = VecDeque::from(vec![1, 9, 3]);
    assert_eq!(apply_op(0, OperationType::Subtraction, &mut stack), Ok(()));
    assert_eq!(stack, VecDeque::from(vec![1, 6]));
    assert_eq!(apply_op(1, OperationType::Addition, &mut stack), Ok(()));
    assert_eq!(stack, VecDeque::from(vec![7]));
    let mut stack = VecDeque::from(vec![8, 2]);
    assert_eq!(apply_op(0, OperationType::Division, &mut stack), Ok(()));
    assert_eq!(stack, VecDeque::from(vec![4]));
    let mut stack = VecDeque::from(vec![8, 2]);
    assert_eq!(apply_op(0, OperationType::Multiplication, &mut stack), Ok(()));
    assert_eq!(stack, VecDeque::from(vec![16]));
}

#[test]
fn apply_op_leaves_the_numbers_below() {
    let mut stack = VecDeque::from(vec![1, 2, 3]);
    assert_eq!(apply_op(6, OperationType::Addition, &mut stack), Ok(()));
    assert_eq!(stack, VecDeque::from(vec![1, 5]));
}

#[test]
fn apply_op_without_two_numbers_empties_the_stack() {
    let mut stack = VecDeque::from(vec![7]);
    assert_eq!(
        apply_op(3, OperationType::Addition, &mut stack),
        Err(CalculationError::NoNumberFoundForOperation(3, OperationType::Addition))
    );
    assert!(stack.is_empty());
    let mut stack: VecDeque<u32> = VecDeque::new();
    assert_eq!(
        apply_op(0, OperationType::Division, &mut stack),
        Err(CalculationError::NoNumberFoundForOperation(0, OperationType::Division))
    );
    assert!(stack.is_empty());
}

#[test]
fn apply_op_that_fails_takes_its_operands() {
    let mut stack = VecDeque::from(vec![4, 5, 0]);
    assert_eq!(
        apply_op(6, OperationType::Division, &mut stack),
        Err(CalculationError::DivisionByZero(6))
    );
    assert_eq!(stack, VecDeque::from(vec![4]));
    let mut stack = VecDeque::from(vec![4, 2, 3]);
    assert_eq!(
        apply_op(6, OperationType::Subtraction, &mut stack),
        Err(CalculationError::ArithmeticOverflow(6, OperationType::Subtraction))
    );
    assert_eq!(stack, VecDeque::from(vec![4]));
}

#[test]
fn operator_values() {
    assert_eq!(OperationType::Addition.apply(3, 4), Some(7));
    assert_eq!(OperationType::Subtraction.apply(3, 4), None);
    assert_eq!(OperationType::Subtraction.apply(4, 3), Some(1));
    assert_eq!(OperationType::Multiplication.apply(65536, 65536), None);
    assert_eq!(OperationType::Multiplication.apply(65536, 65535), Some(4294901760));
    assert_eq!(OperationType::Division.apply(9, 2), Some(4));
    assert_eq!(OperationType::Division.apply(9, 0), None);
    assert_eq!(OperationType::Addition.apply(u32::MAX, 1), None);
}
