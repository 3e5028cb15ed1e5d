use vstd::prelude::*;
use crate::evaluator::{calculate, lemma_run_error_stays, run, step, CalculationError};
use crate::operation::OperationType;
use crate::pipeline::{evaluate_line, EvaluationError};
use crate::token::{
    classify, digit_value, lemma_tokenize_error_stays, parse_token, tokenize_line,
    PolishNotationToken, TokenError,
};

verus! {

/// The tokens of a line in which every character stands for something: the
/// token of each character, with its position.
pub open spec fn tokens_of(line: Seq<char>) -> Seq<(usize, PolishNotationToken)> {
    Seq::new(line.len(), |i: int| (i as usize, classify(line[i]).unwrap()))
}

/// One of the three characters that stand for multiplication.
pub open spec fn is_multiplication_glyph(ch: char) -> bool {
    ch == '*' || ch == 'x' || ch == 'X'
}

/// A token that, where it is a number, is one that a single digit stands
/// for.
pub open spec fn holds_a_digit(token: PolishNotationToken) -> bool {
    token matches PolishNotationToken::Number(value) ==> value <= 9
}

/// A line in which every character stands for something has one token for
/// each character, in the order of the characters, and every number among
/// them is the value of one digit.
pub proof fn lemma_tokenize_valid(line: Seq<char>)
    requires
        forall|i: int| 0 <= i < line.len() ==> classify(#[trigger] line[i]) is Some,
    ensures
        tokenize_line(line) == Ok::<Seq<(usize, PolishNotationToken)>, TokenError>(
            tokens_of(line),
        ),
        forall|i: int| 0 <= i < line.len() ==> holds_a_digit((#[trigger] tokens_of(line)[i]).1),
    decreases line.len(),
{
    if line.len() == 0 {
        assert(tokens_of(line) =~= Seq::empty());
    } else {
        let front = line.drop_last();
        assert forall|i: int| 0 <= i < front.len() implies classify(#[trigger] front[i]) is Some by {
            assert(front[i] == line[i]);
        }
        lemma_tokenize_valid(front);
        let token = ((line.len() - 1) as usize, classify(line.last()).unwrap());
        assert(parse_token((line.len() - 1) as usize, line.last()) == Ok::<
            (usize, PolishNotationToken),
            TokenError,
        >(token));
        assert(tokens_of(front).push(token) =~= tokens_of(line));
    }
}

/// The tokenizer fails at the first character that stands for nothing, with
/// its position and the character, whatever follows it.
pub proof fn lemma_tokenize_first_invalid(line: Seq<char>, k: int)
    requires
        0 <= k < line.len(),
        classify(line[k]) is None,
        forall|i: int| 0 <= i < k ==> classify(#[trigger] line[i]) is Some,
    ensures
        tokenize_line(line) == Err::<Seq<(usize, PolishNotationToken)>, TokenError>(
            TokenError::InvalidCharacter(k as usize, line[k]),
        ),
{
    let head = line.take(k + 1);
    let front = line.take(k);
    assert(head.drop_last() =~= front);
    assert(head.last() == line[k]);
    assert forall|i: int| 0 <= i < front.len() implies classify(#[trigger] front[i]) is Some by {
        assert(front[i] == line[i]);
    }
    lemma_tokenize_valid(front);
    assert(tokenize_line(head) == Err::<Seq<(usize, PolishNotationToken)>, TokenError>(
        TokenError::InvalidCharacter(k as usize, line[k]),
    ));
    lemma_tokenize_error_stays(line, k + 1);
}

/// The three characters for multiplication are one operator: two lines that
/// differ only in which of them they use have the same tokens, and so the
/// same value or error.
pub proof fn lemma_multiplication_glyphs_agree(a: Seq<char>, b: Seq<char>)
    requires
        a.len() == b.len(),
        forall|i: int|
            0 <= i < a.len() ==> #[trigger] a[i] == b[i] || (is_multiplication_glyph(a[i])
                && is_multiplication_glyph(b[i])),
    ensures
        tokenize_line(a) == tokenize_line(b),
        evaluate_line(a) == evaluate_line(b),
    decreases a.len(),
{
    if a.len() > 0 {
        let a_front = a.drop_last();
        let b_front = b.drop_last();
        assert forall|i: int| 0 <= i < a_front.len() implies #[trigger] a_front[i] == b_front[i]
            || (is_multiplication_glyph(a_front[i]) && is_multiplication_glyph(b_front[i])) by {
            assert(a_front[i] == a[i]);
            assert(b_front[i] == b[i]);
        }
        lemma_multiplication_glyphs_agree(a_front, b_front);
        let last = a.len() - 1;
        assert(a[last] == b[last] || (is_multiplication_glyph(a[last]) && is_multiplication_glyph(
            b[last],
        )));
        assert(parse_token(last as usize, a.last()) == parse_token(last as usize, b.last()));
    }
}

/// Tokens that are all blanks leave the stack empty.
pub proof fn lemma_run_blanks(tokens: Seq<(usize, PolishNotationToken)>)
    requires
        forall|i: int| 0 <= i < tokens.len() ==> (#[trigger] tokens[i]).1 is Space,
    ensures
        run(tokens) == Ok::<Seq<u32>, CalculationError>(Seq::empty()),
    decreases tokens.len(),
{
    if tokens.len() > 0 {
        let front = tokens.drop_last();
        assert forall|i: int| 0 <= i < front.len() implies (#[trigger] front[i]).1 is Space by {
            assert(front[i] == tokens[i]);
        }
        lemma_run_blanks(front);
        assert(tokens.last() == tokens[tokens.len() - 1]);
    }
}

/// A line that is empty or holds nothing but blanks has no result.
pub proof fn lemma_blank_line_has_no_result(line: Seq<char>)
    requires
        forall|i: int| 0 <= i < line.len() ==> #[trigger] line[i] == ' ',
    ensures
        evaluate_line(line) == Err::<u32, EvaluationError>(
            EvaluationError::Calculation(CalculationError::NoResultAvailable),
        ),
{
    lemma_tokenize_valid(line);
    lemma_run_blanks(tokens_of(line));
}

/// A line that is one decimal digit has the value of the digit.
pub proof fn lemma_single_digit(ch: char)
    requires
        '0' <= ch && ch <= '9',
    ensures
        evaluate_line(seq![ch]) == Ok::<u32, EvaluationError>(digit_value(ch)),
        digit_value(ch) <= 9,
{
    lemma_digit_among_blanks(seq![ch], 0);
}

/// A line that holds one decimal digit, and blanks before and after it, has
/// the value of the digit.
pub proof fn lemma_digit_among_blanks(line: Seq<char>, k: int)
    requires
        0 <= k < line.len(),
        '0' <= line[k] && line[k] <= '9',
        forall|i: int| 0 <= i < line.len() && i != k ==> #[trigger] line[i] == ' ',
    ensures
        evaluate_line(line) == Ok::<u32, EvaluationError>(digit_value(line[k])),
{
    assert forall|i: int| 0 <= i < line.len() implies classify(#[trigger] line[i]) is Some by {
        if i != k {
            assert(line[i] == ' ');
        }
    }
    lemma_tokenize_valid(line);
    let tokens = tokens_of(line);
    assert(tokens[k].1 == PolishNotationToken::Number(digit_value(line[k])));
    lemma_run_one_number(tokens, k, tokens.len() as int);
    assert(tokens.take(tokens.len() as int) =~= tokens);
}

/// Where one token is a number and all the others are blanks, the stack is
/// empty before the number and holds it from there on.
pub proof fn lemma_run_one_number(tokens: Seq<(usize, PolishNotationToken)>, k: int, n: int)
    requires
        0 <= k < tokens.len(),
        0 <= n <= tokens.len(),
        tokens[k].1 is Number,
        forall|i: int| 0 <= i < tokens.len() && i != k ==> (#[trigger] tokens[i]).1 is Space,
    ensures
        run(tokens.take(n)) == Ok::<Seq<u32>, CalculationError>(
            if n <= k {
                Seq::empty()
            } else {
                seq![tokens[k].1->Number_0]
            },
        ),
    decreases n,
{
    if n > 0 {
        lemma_run_one_number(tokens, k, n - 1);
        assert(tokens.take(n).drop_last() =~= tokens.take(n - 1));
        assert(tokens.take(n).last() == tokens[n - 1]);
        if n - 1 == k {
            assert(Seq::<u32>::empty().push(tokens[k].1->Number_0) =~= seq![
                tokens[k].1->Number_0,
            ]);
        }
    }
}

/// A line that starts with an operator fails there, for want of numbers,
/// whatever follows, so long as every character stands for something.
pub proof fn lemma_leading_operator(line: Seq<char>, op_type: OperationType)
    requires
        line.len() > 0,
        classify(line[0]) == Some(PolishNotationToken::Operation(op_type)),
        forall|i: int| 0 <= i < line.len() ==> classify(#[trigger] line[i]) is Some,
    ensures
        evaluate_line(line) == Err::<u32, EvaluationError>(
            EvaluationError::Calculation(
                CalculationError::NoNumberFoundForOperation(0, op_type),
            ),
        ),
{
    lemma_tokenize_valid(line);
    let tokens = tokens_of(line);
    let first = tokens.take(1);
    assert(first.drop_last() =~= Seq::empty());
    assert(first.last() == tokens[0]);
    assert(tokens[0] == (0usize, PolishNotationToken::Operation(op_type)));
    assert(run(first.drop_last()) == Ok::<Seq<u32>, CalculationError>(Seq::empty()));
    assert(run(first) == step(Seq::empty(), first.last()));
    lemma_run_error_stays(tokens, 1);
}

/// What a token adds to the count of numbers on the stack: a number adds
/// itself, an operator takes two and gives one.
pub open spec fn depth_change(token: PolishNotationToken) -> int {
    match token {
        PolishNotationToken::Operation(_) => -1,
        PolishNotationToken::Number(_) => 1,
        PolishNotationToken::Space => 0,
    }
}

/// The numbers among the tokens less the operators among them.
pub open spec fn depth(tokens: Seq<(usize, PolishNotationToken)>) -> int
    decreases tokens.len(),
{
    if tokens.len() == 0 {
        0
    } else {
        depth(tokens.drop_last()) + depth_change(tokens.last().1)
    }
}

/// Where no token fails, the stack holds as many numbers as the tokens
/// had numbers more than operators, and never more than there are tokens.
pub proof fn lemma_stack_depth(tokens: Seq<(usize, PolishNotationToken)>)
    ensures
        run(tokens) matches Ok(stack) ==> stack.len() == depth(tokens) && depth(tokens)
            <= tokens.len(),
    decreases tokens.len(),
{
    if tokens.len() > 0 {
        lemma_stack_depth(tokens.drop_last());
    }
}

/// The three ways an evaluation ends where no token fails: with a value,
/// where the tokens have exactly one number more than operators; with no
/// result, where they have as many of each; and as incomplete, with the
/// count of the numbers left, which is two at least.
pub proof fn lemma_outcome_by_depth(tokens: Seq<(usize, PolishNotationToken)>)
    requires
        tokens.len() <= usize::MAX,
        run(tokens) is Ok,
    ensures
        depth(tokens) >= 0,
        depth(tokens) == 1 <==> calculate(tokens) is Ok,
        depth(tokens) == 0 <==> calculate(tokens) == Err::<u32, CalculationError>(
            CalculationError::NoResultAvailable,
        ),
        depth(tokens) >= 2 <==> calculate(tokens) == Err::<u32, CalculationError>(
            CalculationError::IncompleteExpression(depth(tokens) as usize),
        ),
{
    lemma_stack_depth(tokens);
}

/// Evaluating a line depends on nothing but the line: two results for the
/// same line are the same value or the same error.
pub proof fn lemma_evaluation_repeats(
    line: Seq<char>,
    first: Result<u32, EvaluationError>,
    second: Result<u32, EvaluationError>,
)
    requires
        first == evaluate_line(line),
        second == evaluate_line(line),
    ensures
        first == second,
{
}

/// No operator wraps round or divides by zero in silence. With two numbers
/// on the stack, `x` below `y`, it replaces them by the exact value of
/// `x OP y` where that is a number of 32 bits, and otherwise fails with an
/// error of its own that names the operator's position.
pub proof fn lemma_operator_policy(stack: Seq<u32>, pos: usize, op_type: OperationType)
    requires
        stack.len() >= 2,
    ensures
        ({
            let x = stack[stack.len() - 2];
            let y = stack[stack.len() - 1];
            let rest = stack.take(stack.len() - 2);
            let after = step(stack, (pos, PolishNotationToken::Operation(op_type)));
            let failed = Err::<Seq<u32>, CalculationError>(
                CalculationError::ArithmeticOverflow(pos, op_type),
            );
            match op_type {
                OperationType::Addition => after == if x + y <= u32::MAX {
                    Ok::<Seq<u32>, CalculationError>(rest.push((x + y) as u32))
                } else {
                    failed
                },
                OperationType::Subtraction => after == if y <= x {
                    Ok::<Seq<u32>, CalculationError>(rest.push((x - y) as u32))
                } else {
                    failed
                },
                OperationType::Multiplication => after == if x * y <= u32::MAX {
                    Ok::<Seq<u32>, CalculationError>(rest.push((x * y) as u32))
                } else {
                    failed
                },
                OperationType::Division => after == if y != 0 {
                    Ok::<Seq<u32>, CalculationError>(rest.push(x / y))
                } else {
                    Err::<Seq<u32>, CalculationError>(CalculationError::DivisionByZero(pos))
                },
            }
        }),
{
}

} // verus!
