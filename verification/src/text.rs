use vstd::prelude::*;
use vstd::string::StringExecFns;
use crate::evaluator::CalculationError;
use crate::token::{digit_value, TokenError};

verus! {

/// `String::push` of the standard library appends one character to the end
/// of the string and leaves the characters before it as they were.
pub assume_specification[ String::push ](s: &mut String, ch: char)
    ensures
        final(s)@ == old(s)@.push(ch),
;

/// The character of a decimal digit.
pub open spec fn digit_char(d: nat) -> char
    recommends
        d < 10,
{
    (d + '0' as nat) as char
}

/// A number in decimal notation, without leading zeros.
pub open spec fn decimal(n: nat) -> Seq<char>
    decreases n,
{
    if n < 10 {
        seq![digit_char(n)]
    } else {
        decimal(n / 10).push(digit_char(n % 10))
    }
}

/// A position as messages show it: counted from one.
pub open spec fn shown_position(index: usize) -> Seq<char> {
    decimal((index + 1) as nat)
}

/// The text of a tokenizer error.
pub open spec fn token_error_text(error: TokenError) -> Seq<char> {
    match error {
        TokenError::InvalidCharacter(index, ch) => {
            ("Invalid character at position "@ + shown_position(index) + ", \""@).push(ch)
                + "\""@
        },
    }
}

/// The number that the text of `IncompleteExpression` shows: one less than
/// the numbers left on the stack, since one of them would have been the
/// result.
pub open spec fn unprocessed(stack_size: usize) -> nat {
    if stack_size >= 1 {
        (stack_size - 1) as nat
    } else {
        0
    }
}

/// The text of an evaluator error.
pub open spec fn calculation_error_text(error: CalculationError) -> Seq<char> {
    match error {
        CalculationError::NoNumberFoundForOperation(pos, op_type) => {
            ("No number found before the operation "@).push(op_type.spec_glyph())
                + " at position "@ + shown_position(pos)
        },
        CalculationError::ArithmeticOverflow(pos, op_type) => {
            ("The result of the operation "@).push(op_type.spec_glyph()) + " at position "@
                + shown_position(pos) + " is out of range"@
        },
        CalculationError::DivisionByZero(pos) => {
            "Division by zero at position "@ + shown_position(pos)
        },
        CalculationError::NoResultAvailable => "No result can be generated."@,
        CalculationError::IncompleteExpression(stack_size) => {
            "Incomplete expression. "@ + decimal(unprocessed(stack_size))
                + " tokens unprocessed."@
        },
    }
}

/// The number that a sequence of decimal digits stands for.
pub open spec fn decimal_value(digits: Seq<char>) -> nat
    decreases digits.len(),
{
    if digits.len() == 0 {
        0
    } else {
        (decimal_value(digits.drop_last()) * 10 + digit_value(digits.last())) as nat
    }
}

/// Decimal notation loses nothing: it holds digits only, has no leading
/// zero but for the number zero itself, and stands for the number it was
/// made of.
pub proof fn lemma_decimal_is_exact(n: nat)
    ensures
        decimal(n).len() >= 1,
        forall|i: int| 0 <= i < decimal(n).len() ==> '0' <= #[trigger] decimal(n)[i] <= '9',
        decimal(n)[0] == '0' <==> n == 0,
        decimal_value(decimal(n)) == n,
    decreases n,
{
    let last = digit_char(n % 10);
    assert(digit_value(last) == n % 10);
    assert(decimal(n).last() == last);
    if n < 10 {
        assert(decimal(n).drop_last() =~= Seq::empty());
        assert(decimal_value(decimal(n).drop_last()) == 0);
    } else {
        lemma_decimal_is_exact(n / 10);
        assert(decimal(n).drop_last() =~= decimal(n / 10));
    }
}

/// Appends `n` in decimal notation.
pub fn push_decimal(s: &mut String, n: u128)
    ensures
        final(s)@ == old(s)@ + decimal(n as nat),
    decreases n,
{
    if n >= 10 {
        push_decimal(s, n / 10);
    }
    let d: u8 = (n % 10) as u8;
    s.push(('0' as u8 + d) as char);
    proof {
        assert(final(s)@ =~= old(s)@ + decimal(n as nat));
    }
}

/// Appends a zero-based position counted from one.
fn push_position(s: &mut String, index: usize)
    ensures
        final(s)@ == old(s)@ + shown_position(index),
{
    push_decimal(s, index as u128 + 1);
}

impl TokenError {
    /// The text that tells a user of the error; positions are counted from
    /// one in it.
    pub fn message(&self) -> (text: String)
        ensures
            text@ == token_error_text(*self),
    {
        match *self {
            TokenError::InvalidCharacter(index, ch) => {
                let mut text = String::from_str("Invalid character at position ");
                push_position(&mut text, index);
                text.append(", \"");
                text.push(ch);
                text.append("\"");
                text
            },
        }
    }
}

impl CalculationError {
    /// The text that tells a user of the error; positions are counted from
    /// one in it.
    pub fn message(&self) -> (text: String)
        ensures
            text@ == calculation_error_text(*self),
    {
        match *self {
            CalculationError::NoNumberFoundForOperation(pos, op_type) => {
                let mut text = String::from_str("No number found before the operation ");
                text.push(op_type.glyph());
                text.append(" at position ");
                push_position(&mut text, pos);
                text
            },
            CalculationError::ArithmeticOverflow(pos, op_type) => {
                let mut text = String::from_str("The result of the operation ");
                text.push(op_type.glyph());
                text.append(" at position ");
                push_position(&mut text, pos);
                text.append(" is out of range");
                text
            },
            CalculationError::DivisionByZero(pos) => {
                let mut text = String::from_str("Division by zero at position ");
                push_position(&mut text, pos);
                text
            },
            CalculationError::NoResultAvailable => String::from_str("No result can be generated."),
            CalculationError::IncompleteExpression(stack_size) => {
                let mut text = String::from_str("Incomplete expression. ");
                let shown: usize = if stack_size >= 1 {
                    stack_size - 1
                } else {
                    0
                };
                push_decimal(&mut text, shown as u128);
                text.append(" tokens unprocessed.");
                text
            },
        }
    }
}

} // verus!
