use vstd::prelude::*;
use vstd::string::StringExecFns;
use crate::evaluator::{calculate, calculate_rpd, CalculationError};
use crate::text::{calculation_error_text, token_error_text};
use crate::token::{tokenize, tokenize_line, TokenError};

verus! {

/// Why a line has no value: the error of the stage that stopped.
#[derive(Debug, PartialEq, Eq, Clone, Copy, Structural)]
pub enum EvaluationError {
    Tokenization(TokenError),
    Calculation(CalculationError),
}

/// The value of a line: its tokens, evaluated. An error of the tokenizer
/// comes before any error of the evaluator.
pub open spec fn evaluate_line(line: Seq<char>) -> Result<u32, EvaluationError> {
    match tokenize_line(line) {
        Ok(tokens) => match calculate(tokens) {
            Ok(value) => Ok(value),
            Err(error) => Err(EvaluationError::Calculation(error)),
        },
        Err(error) => Err(EvaluationError::Tokenization(error)),
    }
}

/// The text of an error, as `message` gives it.
pub open spec fn evaluation_error_text(error: EvaluationError) -> Seq<char> {
    match error {
        EvaluationError::Tokenization(inner) => token_error_text(inner),
        EvaluationError::Calculation(inner) => calculation_error_text(inner),
    }
}

/// The text of an error after the sentence that names the stage.
pub open spec fn evaluation_report_text(error: EvaluationError) -> Seq<char> {
    match error {
        EvaluationError::Tokenization(inner) => {
            "An error occurred while evaluating reversed polish notation. "@
                + token_error_text(inner)
        },
        EvaluationError::Calculation(inner) => {
            "An error occurred while calculating reversed polish notation. "@
                + calculation_error_text(inner)
        },
    }
}

/// Evaluates one line. The line is taken as it is: a caller that reads it
/// from a console removes the blanks and the line end around it first.
pub fn evaluate(line: &str) -> (r: Result<u32, EvaluationError>)
    ensures
        r == evaluate_line(line@),
{
    match tokenize(line) {
        Ok(tokens) => match calculate_rpd(tokens) {
            Ok(value) => Ok(value),
            Err(error) => Err(EvaluationError::Calculation(error)),
        },
        Err(error) => Err(EvaluationError::Tokenization(error)),
    }
}

impl EvaluationError {
    /// The text of the error alone.
    pub fn message(&self) -> (text: String)
        ensures
            text@ == evaluation_error_text(*self),
    {
        match *self {
            EvaluationError::Tokenization(inner) => inner.message(),
            EvaluationError::Calculation(inner) => inner.message(),
        }
    }

    /// The line that tells a user of the error: a sentence that names the
    /// stage, then the text of the error.
    pub fn report(&self) -> (text: String)
        ensures
            text@ == evaluation_report_text(*self),
    {
        match *self {
            EvaluationError::Tokenization(inner) => {
                let text = String::from_str(
                    "An error occurred while evaluating reversed polish notation. ",
                );
                let detail = inner.message();
                text.concat(detail.as_str())
            },
            EvaluationError::Calculation(inner) => {
                let text = String::from_str(
                    "An error occurred while calculating reversed polish notation. ",
                );
                let detail = inner.message();
                text.concat(detail.as_str())
            },
        }
    }
}

} // verus!
