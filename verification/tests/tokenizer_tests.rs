use exprlang::{Location, Operator, Token, TokenKind, Tokenizer, TokenizerError};

fn tokenizer_for(text: &str) -> Tokenizer {
    Tokenizer::new(text.chars().collect())
}

fn next_token(t: &mut Tokenizer) -> Token {
    t.next().expect("no fault expected")
}

#[test]
fn integer_with_separators_keeps_digits_only() {
    let mut t = tokenizer_for("12_34_5");
    let tok = next_token(&mut t);
    assert_eq!(tok.location, Location::new(1, 1));
    assert_eq!(
        tok.kind,
        TokenKind::Integer {
            value: "12345".to_string(),
            radix: 10,
        }
    );
    let end = next_token(&mut t);
    assert_eq!(end.kind, TokenKind::EndOfFile);
}

#[test]
fn trailing_separator_is_consumed() {
    let mut t = tokenizer_for("1_2_");
    let tok = next_token(&mut t);
    assert_eq!(
        tok.kind,
        TokenKind::Integer {
            value: "12".to_string(),
            radix: 10,
        }
    );
    assert_eq!(next_token(&mut t).kind, TokenKind::EndOfFile);
}

#[test]
fn leading_separator_is_no_integer() {
    let mut t = tokenizer_for("_12");
    let tok = next_token(&mut t);
    assert_eq!(
        tok.kind,
        TokenKind::Identifier {
            text: "_12".to_string(),
        }
    );
}

#[test]
fn peek_twice_returns_identical_tokens() {
    let mut t = tokenizer_for("2 + 3");
    let first = t.peek().expect("no fault expected");
    let second = t.peek().expect("no fault expected");
    assert_eq!(first, second);
    let consumed = next_token(&mut t);
    assert_eq!(first, consumed);
}

#[test]
fn whitespace_only_input_yields_end_of_file() {
    let mut t = tokenizer_for("   \n\t ");
    let tok = t.next().expect("whitespace must not fault");
    assert_eq!(tok.kind, TokenKind::EndOfFile);
    assert_eq!(tok.location, Location::new(2, 3));
}

#[test]
fn end_of_file_repeats_forever() {
    let mut t = tokenizer_for("7");
    assert!(matches!(
        next_token(&mut t).kind,
        TokenKind::Integer { .. }
    ));
    assert_eq!(next_token(&mut t).kind, TokenKind::EndOfFile);
    assert_eq!(next_token(&mut t).kind, TokenKind::EndOfFile);
    assert_eq!(next_token(&mut t).kind, TokenKind::EndOfFile);
}

#[test]
fn unknown_character_faults_at_its_location() {
    let mut t = tokenizer_for("2 & 3");
    let first = next_token(&mut t);
    assert_eq!(first.location, Location::new(1, 1));
    let fault = t.next();
    assert_eq!(
        fault,
        Err(TokenizerError::UnknownToken(Location::new(1, 3), '&'))
    );
}

#[test]
fn operators_scan_one_character_each() {
    let mut t = tokenizer_for("+ - * /");
    assert_eq!(next_token(&mut t).kind, TokenKind::Operator(Operator::Plus));
    assert_eq!(next_token(&mut t).kind, TokenKind::Operator(Operator::Minus));
    assert_eq!(next_token(&mut t).kind, TokenKind::Operator(Operator::Star));
    assert_eq!(next_token(&mut t).kind, TokenKind::Operator(Operator::Slash));
    assert_eq!(next_token(&mut t).kind, TokenKind::EndOfFile);
}

#[test]
fn digit_led_lexeme_is_never_an_identifier() {
    let mut t = tokenizer_for("2abc");
    assert_eq!(
        next_token(&mut t).kind,
        TokenKind::Integer {
            value: "2".to_string(),
            radix: 10,
        }
    );
    assert_eq!(
        next_token(&mut t).kind,
        TokenKind::Identifier {
            text: "abc".to_string(),
        }
    );
}

#[test]
fn newline_moves_location_to_next_line() {
    let mut t = tokenizer_for("1\n 2");
    let first = next_token(&mut t);
    assert_eq!(first.location, Location::new(1, 1));
    let second = next_token(&mut t);
    assert_eq!(second.location, Location::new(2, 2));
}

#[test]
fn is_binary_operator_is_true_exactly_for_operators() {
    assert!(TokenKind::Operator(Operator::Plus).is_binary_operator());
    assert!(TokenKind::Operator(Operator::Minus).is_binary_operator());
    assert!(TokenKind::Operator(Operator::Star).is_binary_operator());
    assert!(TokenKind::Operator(Operator::Slash).is_binary_operator());
    assert!(!TokenKind::EndOfFile.is_binary_operator());
    assert!(!TokenKind::Identifier {
        text: "x".to_string()
    }
    .is_binary_operator());
    assert!(!TokenKind::Integer {
        value: "1".to_string(),
        radix: 10
    }
    .is_binary_operator());
}

#[test]
fn token_new_stores_its_parts() {
    let tok = Token::new(Location::new(3, 4), TokenKind::EndOfFile);
    assert_eq!(tok.location, Location::new(3, 4));
    assert_eq!(tok.kind, TokenKind::EndOfFile);
}
