use exprlang::{
    BinaryOperation, Expression, ExpressionKind, Literal, LiteralKind, Location, Operator,
    ParseError, Parser, TokenKind, Tokenizer,
};

fn parser_for(text: &str) -> Parser {
    Parser::new(Tokenizer::new(text.chars().collect()))
}

fn integer(value: &str, line: usize, column: usize) -> Expression {
    Expression {
        node: ExpressionKind::Literal(Box::new(Literal {
            node: LiteralKind::Integer(value.to_string()),
            location: Location::new(line, column),
        })),
        location: Location::new(line, column),
    }
}

fn binary(
    op: BinaryOperation,
    left: Expression,
    right: Expression,
    line: usize,
    column: usize,
) -> Expression {
    Expression {
        node: ExpressionKind::Binary(op, Box::new(left), Box::new(right)),
        location: Location::new(line, column),
    }
}

#[test]
fn multiplication_binds_tighter_than_addition() {
    let tree = parser_for("2 + 3 * 4").parse().expect("parse must succeed");
    let expected = binary(
        BinaryOperation::Add,
        integer("2", 1, 1),
        binary(
            BinaryOperation::Multiply,
            integer("3", 1, 5),
            integer("4", 1, 9),
            1,
            5,
        ),
        1,
        1,
    );
    assert_eq!(*tree, expected);
}

#[test]
fn subtraction_groups_left_to_right() {
    let tree = parser_for("8 - 3 - 2").parse().expect("parse must succeed");
    let expected = binary(
        BinaryOperation::Subtract,
        binary(
            BinaryOperation::Subtract,
            integer("8", 1, 1),
            integer("3", 1, 5),
            1,
            1,
        ),
        integer("2", 1, 9),
        1,
        1,
    );
    assert_eq!(*tree, expected);
}

#[test]
fn division_groups_left_to_right() {
    let tree = parser_for("8 / 4 / 2").parse().expect("parse must succeed");
    let expected = binary(
        BinaryOperation::Divide,
        binary(
            BinaryOperation::Divide,
            integer("8", 1, 1),
            integer("4", 1, 5),
            1,
            1,
        ),
        integer("2", 1, 9),
        1,
        1,
    );
    assert_eq!(*tree, expected);
}

#[test]
fn product_on_the_left_still_binds_tighter() {
    let tree = parser_for("2 * 3 + 4").parse().expect("parse must succeed");
    let expected = binary(
        BinaryOperation::Add,
        binary(
            BinaryOperation::Multiply,
            integer("2", 1, 1),
            integer("3", 1, 5),
            1,
            1,
        ),
        integer("4", 1, 9),
        1,
        1,
    );
    assert_eq!(*tree, expected);
}

#[test]
fn bare_integer_parses_to_a_literal() {
    let tree = parser_for("42").parse().expect("parse must succeed");
    assert_eq!(*tree, integer("42", 1, 1));
}

#[test]
fn unknown_token_fault_carries_its_exact_position() {
    let fault = parser_for("2 & 3").parse();
    assert_eq!(
        fault,
        Err(ParseError::UnknownToken(Location::new(1, 3), '&'))
    );
}

#[test]
fn empty_input_is_no_expression() {
    let fault = parser_for("").parse();
    assert_eq!(
        fault,
        Err(ParseError::ExpectedExpression(
            Location::new(1, 1),
            TokenKind::EndOfFile
        ))
    );
}

#[test]
fn lone_operator_is_no_expression() {
    let fault = parser_for("+").parse();
    assert_eq!(
        fault,
        Err(ParseError::ExpectedExpression(
            Location::new(1, 1),
            TokenKind::Operator(Operator::Plus)
        ))
    );
}

#[test]
fn missing_right_operand_faults_at_end_of_input() {
    let fault = parser_for("2 +").parse();
    assert_eq!(
        fault,
        Err(ParseError::ExpectedExpression(
            Location::new(1, 4),
            TokenKind::EndOfFile
        ))
    );
}

#[test]
fn identifier_is_no_primary_expression() {
    let fault = parser_for("foo").parse();
    assert_eq!(
        fault,
        Err(ParseError::ExpectedExpression(
            Location::new(1, 1),
            TokenKind::Identifier {
                text: "foo".to_string()
            }
        ))
    );
}

#[test]
fn trailing_tokens_are_left_unread() {
    let mut parser = parser_for("2 3");
    let tree = parser.parse().expect("parse must succeed");
    assert_eq!(*tree, integer("2", 1, 1));
    assert_eq!(parser.at_end(), Ok(false));
}

#[test]
fn full_consumption_is_a_separate_check() {
    let mut parser = parser_for("2 + 3");
    parser.parse().expect("parse must succeed");
    assert_eq!(parser.at_end(), Ok(true));
}

#[test]
fn operand_on_next_line_keeps_its_location() {
    let tree = parser_for("1 +\n2").parse().expect("parse must succeed");
    let expected = binary(
        BinaryOperation::Add,
        integer("1", 1, 1),
        integer("2", 2, 1),
        1,
        1,
    );
    assert_eq!(*tree, expected);
}
