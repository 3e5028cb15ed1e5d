use vstd::prelude::*;
use vstd::std_specs::iter::IteratorSpec;
use crate::operation::OperationType;

verus! {

/// What one character of a line stands for. A token travels with the
/// zero-based position of its character, as a pair `(position, token)`.
#[derive(Debug, PartialEq, Eq, Clone, Copy, Structural)]
pub enum PolishNotationToken {
    Operation(OperationType),
    /// The value of a decimal digit.
    Number(u32),
    /// A blank: it has no effect, but keeps the positions after it exact.
    Space,
}

/// Why a line could not be turned into tokens.
#[derive(Debug, PartialEq, Eq, Clone, Copy, Structural)]
pub enum TokenError {
    /// The zero-based position of a character that stands for nothing, and
    /// the character.
    InvalidCharacter(usize, char),
}

/// The value of a decimal digit.
pub open spec fn digit_value(ch: char) -> u32
    recommends
        '0' <= ch && ch <= '9',
{
    (ch as u32 - '0' as u32) as u32
}

/// The token that a character stands for, and `None` for a character that
/// stands for nothing.
pub open spec fn classify(ch: char) -> Option<PolishNotationToken> {
    if ch == '+' {
        Some(PolishNotationToken::Operation(OperationType::Addition))
    } else if ch == '-' {
        Some(PolishNotationToken::Operation(OperationType::Subtraction))
    } else if ch == '*' || ch == 'x' || ch == 'X' {
        Some(PolishNotationToken::Operation(OperationType::Multiplication))
    } else if ch == '/' {
        Some(PolishNotationToken::Operation(OperationType::Division))
    } else if '0' <= ch && ch <= '9' {
        Some(PolishNotationToken::Number(digit_value(ch)))
    } else if ch == ' ' {
        Some(PolishNotationToken::Space)
    } else {
        None
    }
}

/// The token of the character `ch` found at `index`, or the error that
/// names both.
pub open spec fn parse_token(index: usize, ch: char) -> Result<
    (usize, PolishNotationToken),
    TokenError,
> {
    match classify(ch) {
        Some(token) => Ok((index, token)),
        None => Err(TokenError::InvalidCharacter(index, ch)),
    }
}

/// Classifies one character, looking at nothing but the character itself.
pub fn parse_rpd_token(index: usize, ch: char) -> (r: Result<
    (usize, PolishNotationToken),
    TokenError,
>)
    ensures
        r == parse_token(index, ch),
{
    match ch {
        '+' => Ok((index, PolishNotationToken::Operation(OperationType::Addition))),
        '-' => Ok((index, PolishNotationToken::Operation(OperationType::Subtraction))),
        '*' | 'x' | 'X' => Ok(
            (index, PolishNotationToken::Operation(OperationType::Multiplication)),
        ),
        '/' => Ok((index, PolishNotationToken::Operation(OperationType::Division))),
        '0'..='9' => Ok((index, PolishNotationToken::Number(ch as u32 - '0' as u32))),
        ' ' => Ok((index, PolishNotationToken::Space)),
        _ => Err(TokenError::InvalidCharacter(index, ch)),
    }
}

/// The tokens of a line, one for each character and in the order of the
/// characters, or the error of the first character that stands for nothing.
pub open spec fn tokenize_line(line: Seq<char>) -> Result<
    Seq<(usize, PolishNotationToken)>,
    TokenError,
>
    decreases line.len(),
{
    if line.len() == 0 {
        Ok(Seq::empty())
    } else {
        match tokenize_line(line.drop_last()) {
            Ok(tokens) => match parse_token((line.len() - 1) as usize, line.last()) {
                Ok(token) => Ok(tokens.push(token)),
                Err(error) => Err(error),
            },
            Err(error) => Err(error),
        }
    }
}

/// Turns a line into its tokens, and stops at the first character that
/// stands for nothing. Blanks at either end are characters like the others:
/// a caller that does not want them removes them first.
pub fn tokenize(line: &str) -> (r: Result<Vec<(usize, PolishNotationToken)>, TokenError>)
    ensures
        match r {
            Ok(tokens) => tokenize_line(line@) == Ok::<
                Seq<(usize, PolishNotationToken)>,
                TokenError,
            >(tokens@),
            Err(error) => tokenize_line(line@) == Err::<
                Seq<(usize, PolishNotationToken)>,
                TokenError,
            >(error),
        },
{
    broadcast use vstd::string::group_string_axioms;

    let mut tokens: Vec<(usize, PolishNotationToken)> = Vec::new();
    let mut chars = line.chars();
    loop
        invariant
            tokens@.len() <= line@.len(),
            chars.remaining() == line@.skip(tokens@.len() as int),
            tokenize_line(line@.take(tokens@.len() as int)) == Ok::<
                Seq<(usize, PolishNotationToken)>,
                TokenError,
            >(tokens@),
        ensures
            tokenize_line(line@) == Ok::<Seq<(usize, PolishNotationToken)>, TokenError>(tokens@),
        decreases line@.len() - tokens@.len(),
    {
        let index: usize = tokens.len();
        match chars.next() {
            None => {
                proof {
                    assert(line@.take(index as int) =~= line@);
                }
                break ;
            },
            Some(ch) => {
                proof {
                    assert(line@.take(index + 1).drop_last() =~= line@.take(index as int));
                    assert(line@.take(index + 1).last() == ch);
                    assert(line@.skip(index as int).drop_first() =~= line@.skip(index + 1));
                }
                match parse_rpd_token(index, ch) {
                    Ok(token) => {
                        tokens.push(token);
                    },
                    Err(error) => {
                        proof {
                            lemma_tokenize_error_stays(line@, index + 1);
                        }
                        return Err(error);
                    },
                }
            },
        }
    }
    Ok(tokens)
}

/// Once a character has been refused, the characters after it change
/// nothing.
pub proof fn lemma_tokenize_error_stays(line: Seq<char>, n: int)
    requires
        0 <= n <= line.len(),
        tokenize_line(line.take(n)) is Err,
    ensures
        tokenize_line(line) == tokenize_line(line.take(n)),
    decreases line.len() - n,
{
    if n == line.len() {
        assert(line.take(n) =~= line);
    } else {
        assert(line.drop_last().take(n) =~= line.take(n));
        lemma_tokenize_error_stays(line.drop_last(), n);
    }
}

} // verus!
