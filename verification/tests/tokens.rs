use rpd::operation::OperationType;
use rpd::token::{parse_rpd_token, tokenize, PolishNotationToken, TokenError};

#[test]
fn operator_characters() {
    let plus = PolishNotationToken::Operation(OperationType::Addition);
    let minus = PolishNotationToken::Operation(OperationType::Subtraction);
    let times = PolishNotationToken::Operation(OperationType::Multiplication);
    let over = PolishNotationToken::Operation(OperationType::Division);
    assert_eq!(parse_rpd_token(0, '+'), Ok((0, plus)));
    assert_eq!(parse_rpd_token(1, '-'), Ok((1, minus)));
    assert_eq!(parse_rpd_token(2, '*'), Ok((2, times)));
    assert_eq!(parse_rpd_token(3, 'x'), Ok((3, times)));
    assert_eq!(parse_rpd_token(4, 'X'), Ok((4, times)));
    assert_eq!(parse_rpd_token(5, '/'), Ok((5, over)));
}

#[test]
fn digit_characters() {
    assert_eq!(parse_rpd_token(0, '0'), Ok((0, PolishNotationToken::Number(0))));
    assert_eq!(parse_rpd_token(7, '5'), Ok((7, PolishNotationToken::Number(5))));
    assert_eq!(parse_rpd_token(9, '9'), Ok((9, PolishNotationToken::Number(9))));
}

#[test]
fn blank_character() {
    assert_eq!(parse_rpd_token(3, ' '), Ok((3, PolishNotationToken::Space)));
}

#[test]
fn characters_that_stand_for_nothing() {
    for ch in ['$', 'a', '\t', '\n', '.', ':', '\u{00d7}', '\u{0663}', '(', 'e'] {
        assert_eq!(parse_rpd_token(2, ch), Err(TokenError::InvalidCharacter(2, ch)));
    }
    assert_eq!(
        parse_rpd_token(usize::MAX, '?'),
        Err(TokenError::InvalidCharacter(usize::MAX, '?'))
    );
}

#[test]
fn one_token_for_each_character() {
    let tokens = tokenize("3 4x").unwrap();
    assert_eq!(
        tokens,
        vec![
            (0, PolishNotationToken::Number(3)),
            (1, PolishNotationToken::Space),
            (2, PolishNotationToken::Number(4)),
            (3, PolishNotationToken::Operation(OperationType::Multiplication)),
        ]
    );
    assert_eq!(tokenize(""), Ok(Vec::new()));
}

#[test]
fn blanks_at_the_ends_are_kept() {
    let tokens = tokenize(" 1 ").unwrap();
    assert_eq!(
        tokens,
        vec![
            (0, PolishNotationToken::Space),
            (1, PolishNotationToken::Number(1)),
            (2, PolishNotationToken::Space),
        ]
    );
}

#[test]
fn first_invalid_character_stops_the_line() {
    assert_eq!(tokenize("3 4 $"), Err(TokenError::InvalidCharacter(4, '$')));
    assert_eq!(tokenize("3 # $"), Err(TokenError::InvalidCharacter(2, '#')));
    assert_eq!(tokenize("a 1 2 +"), Err(TokenError::InvalidCharacter(0, 'a')));
}

#[test]
fn positions_count_characters() {
    assert_eq!(tokenize("1 \u{00e9} \u{00e8}"), Err(TokenError::InvalidCharacter(2, '\u{00e9}')));
    assert_eq!(tokenize("12\u{20ac}"), Err(TokenError::InvalidCharacter(2, '\u{20ac}')));
}

#[test]
fn multi_digit_numbers_are_separate_tokens() {
    assert_eq!(
        tokenize("12"),
        Ok(vec![(0, PolishNotationToken::Number(1)), (1, PolishNotationToken::Number(2))])
    );
}
