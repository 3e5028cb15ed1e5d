use std::collections::VecDeque;
use vstd::prelude::*;
use crate::operation::OperationType;
use crate::token::PolishNotationToken;

verus! {

/// Why a sequence of tokens has no value.
#[derive(Debug, PartialEq, Eq, Clone, Copy, Structural)]
pub enum CalculationError {
    /// The operator at this zero-based position found fewer than two numbers
    /// on the stack.
    NoNumberFoundForOperation(usize, OperationType),
    /// The operator at this zero-based position has a sum or product too
    /// large for 32 bits, or a negative difference.
    ArithmeticOverflow(usize, OperationType),
    /// The division at this zero-based position has the divisor zero.
    DivisionByZero(usize),
    /// No number was left on the stack.
    NoResultAvailable,
    /// More than one number was left on the stack: so many.
    IncompleteExpression(usize),
}

/// The error of an operator whose operands are there but whose value is not
/// a number of 32 bits.
pub open spec fn arithmetic_error(op_pos: usize, op_type: OperationType) -> CalculationError {
    match op_type {
        OperationType::Division => CalculationError::DivisionByZero(op_pos),
        _ => CalculationError::ArithmeticOverflow(op_pos, op_type),
    }
}

/// The stack after the operator at `op_pos` has replaced the two numbers on
/// top, `x` below `y`, by `x OP y`; or the error that stops the evaluation.
pub open spec fn apply_op_result(op_pos: usize, op_type: OperationType, stack: Seq<u32>) -> Result<
    Seq<u32>,
    CalculationError,
> {
    if stack.len() < 2 {
        Err(CalculationError::NoNumberFoundForOperation(op_pos, op_type))
    } else {
        let y = stack[stack.len() - 1];
        let x = stack[stack.len() - 2];
        match op_type.spec_apply(x, y) {
            Some(value) => Ok(stack.take(stack.len() - 2).push(value)),
            None => Err(arithmetic_error(op_pos, op_type)),
        }
    }
}

/// What a failed operator leaves of the stack: it has taken the numbers it
/// could find, at most two, and has put nothing back.
pub open spec fn operands_taken(stack: Seq<u32>) -> Seq<u32> {
    if stack.len() < 2 {
        Seq::empty()
    } else {
        stack.take(stack.len() - 2)
    }
}

/// The stack after one token.
pub open spec fn step(stack: Seq<u32>, token: (usize, PolishNotationToken)) -> Result<
    Seq<u32>,
    CalculationError,
> {
    match token.1 {
        PolishNotationToken::Operation(op_type) => apply_op_result(token.0, op_type, stack),
        PolishNotationToken::Number(value) => Ok(stack.push(value)),
        PolishNotationToken::Space => Ok(stack),
    }
}

/// The stack after all the tokens, taken from left to right and starting
/// from the empty stack, or the error of the first token that fails.
pub open spec fn run(tokens: Seq<(usize, PolishNotationToken)>) -> Result<
    Seq<u32>,
    CalculationError,
>
    decreases tokens.len(),
{
    if tokens.len() == 0 {
        Ok(Seq::empty())
    } else {
        match run(tokens.drop_last()) {
            Ok(stack) => step(stack, tokens.last()),
            Err(error) => Err(error),
        }
    }
}

/// The value that a final stack stands for: it must hold exactly one number.
pub open spec fn outcome(stack: Seq<u32>) -> Result<u32, CalculationError> {
    if stack.len() > 1 {
        Err(CalculationError::IncompleteExpression(stack.len() as usize))
    } else if stack.len() == 0 {
        Err(CalculationError::NoResultAvailable)
    } else {
        Ok(stack[0])
    }
}

/// The value of a sequence of tokens.
pub open spec fn calculate(tokens: Seq<(usize, PolishNotationToken)>) -> Result<
    u32,
    CalculationError,
> {
    match run(tokens) {
        Ok(stack) => outcome(stack),
        Err(error) => Err(error),
    }
}

/// Applies the operator found at `op_pos` to the two numbers on top of the
/// stack. The number pushed last is the right operand.
pub fn apply_op(op_pos: usize, op_type: OperationType, stack: &mut VecDeque<u32>) -> (r: Result<
    (),
    CalculationError,
>)
    ensures
        match r {
            Ok(()) => apply_op_result(op_pos, op_type, old(stack)@) == Ok::<
                Seq<u32>,
                CalculationError,
            >(final(stack)@),
            Err(error) => {
                &&& apply_op_result(op_pos, op_type, old(stack)@) == Err::<
                    Seq<u32>,
                    CalculationError,
                >(error)
                &&& final(stack)@ == operands_taken(old(stack)@)
            },
        },
{
    let y = match stack.pop_back() {
        Some(y) => y,
        None => {
            return Err(CalculationError::NoNumberFoundForOperation(op_pos, op_type));
        },
    };
    let x = match stack.pop_back() {
        Some(x) => x,
        None => {
            return Err(CalculationError::NoNumberFoundForOperation(op_pos, op_type));
        },
    };
    assert(stack@ =~= old(stack)@.take(old(stack)@.len() - 2));
    match op_type.apply(x, y) {
        Some(value) => {
            stack.push_back(value);
            Ok(())
        },
        None => match op_type {
            OperationType::Division => Err(CalculationError::DivisionByZero(op_pos)),
            _ => Err(CalculationError::ArithmeticOverflow(op_pos, op_type)),
        },
    }
}

/// Evaluates the tokens of one line from left to right on a stack that
/// starts empty.
pub fn calculate_rpd(tokens: Vec<(usize, PolishNotationToken)>) -> (r: Result<
    u32,
    CalculationError,
>)
    ensures
        r == calculate(tokens@),
{
    let mut stack = VecDeque::<u32>::new();
    let mut i: usize = 0;
    while i < tokens.len()
        invariant
            i <= tokens.len(),
            run(tokens@.take(i as int)) == Ok::<Seq<u32>, CalculationError>(stack@),
        decreases tokens.len() - i,
    {
        let token = tokens[i];
        proof {
            assert(tokens@.take(i + 1).drop_last() =~= tokens@.take(i as int));
            assert(tokens@.take(i + 1).last() == token);
        }
        match token.1 {
            PolishNotationToken::Operation(op_type) => {
                match apply_op(token.0, op_type, &mut stack) {
                    Ok(()) => {},
                    Err(error) => {
                        proof {
                            lemma_run_error_stays(tokens@, i + 1);
                        }
                        return Err(error);
                    },
                }
            },
            PolishNotationToken::Number(value) => {
                stack.push_back(value);
            },
            PolishNotationToken::Space => {},
        }
        i += 1;
    }
    proof {
        assert(tokens@.take(i as int) =~= tokens@);
    }
    if stack.len() > 1 {
        return Err(CalculationError::IncompleteExpression(stack.len()));
    }
    match stack.pop_back() {
        Some(value) => Ok(value),
        None => Err(CalculationError::NoResultAvailable),
    }
}

/// Once a token has failed, the tokens after it change nothing: the
/// evaluation has stopped there.
pub proof fn lemma_run_error_stays(tokens: Seq<(usize, PolishNotationToken)>, n: int)
    requires
        0 <= n <= tokens.len(),
        run(tokens.take(n)) is Err,
    ensures
        run(tokens) == run(tokens.take(n)),
    decreases tokens.len() - n,
{
    if n == tokens.len() {
        assert(tokens.take(n) =~= tokens);
    } else {
        assert(tokens.drop_last().take(n) =~= tokens.take(n));
        lemma_run_error_stays(tokens.drop_last(), n);
    }
}

} // verus!
