//! A calculator for expressions in Reverse Polish Notation over single-digit
//! operands and the four operators `+`, `-`, `*` (also written `x` or `X`)
//! and `/`.
//!
//! A line of text is first turned into one token per character and the tokens
//! are then reduced on a stack. Every function states its result over the
//! mathematical model of the line, a `Seq<char>`.

pub mod operation;
pub mod token;
pub mod evaluator;
pub mod text;
pub mod pipeline;
pub mod laws;

pub use crate::evaluator::{apply_op, calculate_rpd, CalculationError};
pub use crate::operation::OperationType;
pub use crate::pipeline::{evaluate, EvaluationError};
pub use crate::token::{parse_rpd_token, tokenize, PolishNotationToken, TokenError};
