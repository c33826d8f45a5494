use minilang::lexer::Token;
use minilang::lexer::TokenKind;
use minilang::parse::Expression;
use minilang::parse::ParseError;
use minilang::parse::block::Block;
use minilang::parse::definition::Definition;
use minilang::parse::function_call::FunctionCall;
use minilang::parse::if_expr::IfExpr;
use minilang::parse::lambda::Lambda;

#[test]
fn returns_error_when_no_open_brace() {
    let mut tokens = vec![
        Token::new(TokenKind::Operator, "}".to_string(), 0, 0),
    ].into_iter().rev().collect();
    let block = Block::parse(&mut tokens);
    assert!(block.is_err());
    assert_eq!(block.unwrap_err(), ParseError::new("Expected '{'", 0, 0));
}

#[test]
fn returns_error_when_no_close_brace() {
    let mut tokens = vec![
        Token::new(TokenKind::Operator, "{".to_string(), 0, 0),
    ].into_iter().rev().collect();
    let block = Block::parse(&mut tokens);
    assert!(block.is_err());
    assert_eq!(block.unwrap_err(), ParseError::new("Expected '}'", 0, 0));
}

#[test]
fn parses_an_empty_block() {
    let mut tokens = vec![
        Token::new(TokenKind::Operator, "{".to_string(), 0, 0),
        Token::new(TokenKind::Operator, "}".to_string(), 0, 0),
    ].into_iter().rev().collect();
    let block = Block::parse(&mut tokens);
    assert!(block.is_ok());
    assert_eq!(block.unwrap(), Block::new(vec![]));
}

#[test]
fn parses_with_expressions() {
    let mut tokens = vec![
        Token::new(TokenKind::Operator, "{".to_string(), 0, 0),
        Token::new(TokenKind::Number, "1".to_string(), 0, 0),
        Token::new(TokenKind::Operator, "}".to_string(), 0, 0),
    ].into_iter().rev().collect();
    let block = Block::parse(&mut tokens);
    assert!(block.is_ok());
    assert_eq!(block.unwrap(), Block::new(vec![Expression::Number(1)]));
}

#[test]
fn returns_error_if_not_let() {
    let mut tokens = vec![
        Token::new(TokenKind::Symbol, "do".to_string(), 1, 1),
        Token::new(TokenKind::Symbol, "something".to_string(), 1, 3),
        Token::new(TokenKind::Operator, "=".to_string(), 1, 13),
        Token::new(TokenKind::Number, "1".to_string(), 1, 15),
    ].into_iter().rev().collect();

    let result = Definition::parse(&mut tokens);
    assert!(result.is_err());
    assert_eq!(result.unwrap_err().message, "Expected 'let' keyword");
}

#[test]
fn returns_error_if_no_identifier() {
    let mut tokens = vec![
        Token::new(TokenKind::Symbol, "let".to_string(), 1, 1),
        Token::new(TokenKind::Operator, "=".to_string(), 1, 5),
        Token::new(TokenKind::Number, "1".to_string(), 1, 7),
    ].into_iter().rev().collect();

    let result = Definition::parse(&mut tokens);
    assert!(result.is_err());
    assert_eq!(result.unwrap_err().message, "Expected identifier");
}

#[test]
fn returns_error_if_no_eq() {
    let mut tokens = vec![
        Token::new(TokenKind::Symbol, "let".to_string(), 1, 1),
        Token::new(TokenKind::Symbol, "x".to_string(), 1, 5),
        Token::new(TokenKind::Number, "1".to_string(), 1, 7),
    ].into_iter().rev().collect();

    let result = Definition::parse(&mut tokens);
    assert!(result.is_err());
    assert_eq!(result.unwrap_err().message, "Expected '='");
}

#[test]
fn returns_with_a_parsed_number() {
    let mut tokens: Vec<Token> = vec![
        Token::new(TokenKind::Symbol, "let".to_string(), 1, 1),
        Token::new(TokenKind::Symbol, "x".to_string(), 1, 5),
        Token::new(TokenKind::Operator, "=".to_string(), 1, 7),
        Token::new(TokenKind::Number, "1".to_string(), 1, 9),
    ].into_iter().rev().collect();

    let result = Definition::parse(&mut tokens);
    assert!(result.is_ok());
    assert_eq!(result.unwrap(), Definition::new("x".to_string(), Box::new(Expression::Number(1))));
    assert!(tokens.is_empty());
}

#[test]
fn test_function_call_with_one_arg() {
    let mut tokens = vec![
        Token::new(TokenKind::Symbol, "foo".to_string(), 0, 0),
        Token::new(TokenKind::Operator, "(".to_string(), 0, 0),
        Token::new(TokenKind::Symbol, "bar".to_string(), 0, 0),
        Token::new(TokenKind::Operator, ")".to_string(), 0, 0),
    ].into_iter().rev().collect();
    let function_call = FunctionCall::parse(&mut tokens).unwrap();
    assert_eq!(function_call, FunctionCall::new("foo".to_string(), vec![Expression::Identifier("bar".to_string())]));
}

#[test]
fn test_function_call_with_two_args() {
    let mut tokens = vec![
        Token::new(TokenKind::Symbol, "foo".to_string(), 0, 0),
        Token::new(TokenKind::Operator, "(".to_string(), 0, 0),
        Token::new(TokenKind::Symbol, "bar".to_string(), 0, 0),
        Token::new(TokenKind::Operator, ",".to_string(), 0, 0),
        Token::new(TokenKind::Symbol, "baz".to_string(), 0, 0),
        Token::new(TokenKind::Operator, ")".to_string(), 0, 0),
    ].into_iter().rev().collect();
    let function_call = FunctionCall::parse(&mut tokens).unwrap();
    assert_eq!(function_call, FunctionCall::new("foo".to_string(), vec![Expression::Identifier("bar".to_string()), Expression::Identifier("baz".to_string())]));
}

#[test]
fn returns_error_when_no_if() {
    let mut tokens = vec![
        Token::new(TokenKind::Symbol, "else".to_string(), 0, 0),
    ];
    let result = IfExpr::parse(&mut tokens);
    assert_eq!(result.is_err(), true);
}

#[test]
fn returns_error_when_no_condition() {
    let mut tokens = vec![
        Token::new(TokenKind::Symbol, "if".to_string(), 0, 0),
    ];
    let result = IfExpr::parse(&mut tokens);
    assert_eq!(result.is_err(), true);
}

#[test]
fn returns_error_when_no_then_expression() {
    let mut tokens = vec![
        Token::new(TokenKind::Symbol, "if".to_string(), 0, 0),
        Token::new(TokenKind::Number, "1".to_string(), 0, 0),
    ].into_iter().rev().collect();
    let result = IfExpr::parse(&mut tokens);
    assert_eq!(result.is_err(), true);
}

#[test]
fn parses_without_else() {
    let mut tokens = vec![
        Token::new(TokenKind::Symbol, "if".to_string(), 0, 0),
        Token::new(TokenKind::Number, "1".to_string(), 0, 0),
        Token::new(TokenKind::Number, "2".to_string(), 0, 0),
    ].into_iter().rev().collect();
    let result = IfExpr::parse(&mut tokens);
    assert_eq!(result.is_ok(), true);
    assert_eq!(result.unwrap(), IfExpr::new(
        Expression::Number(1),
        Expression::Number(2),
        None,
    ));
}

#[test]
fn test_lambda_returns_error_when_no_open_paren() {
    let mut tokens = vec![
        Token::new(TokenKind::Operator, ")".to_string(), 0, 0),
        Token::new(TokenKind::Symbol, "x".to_string(), 0, 0),
        Token::new(TokenKind::Operator, "=>".to_string(), 0, 0),
        Token::new(TokenKind::Number, "1".to_string(), 0, 0),
    ].into_iter().rev().collect();
    let lambda = Lambda::parse(&mut tokens);
    assert_eq!(lambda, Err(ParseError::new("Expected '('", 0, 0)));
}

#[test]
fn test_lambda_returns_error_when_no_close_paren() {
    let mut tokens = vec![
        Token::new(TokenKind::Operator, "(".to_string(), 0, 0),
        Token::new(TokenKind::Symbol, "x".to_string(), 0, 0),
    ].into_iter().rev().collect();
    let lambda = Lambda::parse(&mut tokens);
    assert_eq!(lambda, Err(ParseError::new("Expected ')'", 0, 0)));
}

#[test]
fn test_lambda_returns_error_when_no_arrow() {
    let mut tokens = vec![
        Token::new(TokenKind::Operator, "(".to_string(), 0, 0),
        Token::new(TokenKind::Symbol, "x".to_string(), 0, 0),
        Token::new(TokenKind::Operator, ")".to_string(), 0, 0),
        Token::new(TokenKind::Number, "1".to_string(), 0, 0),
    ].into_iter().rev().collect();
    let lambda = Lambda::parse(&mut tokens);
    assert_eq!(lambda, Err(ParseError::new("Expected '=>'", 0, 0)));
}

#[test]
fn test_lambda_with_one_argument() {
    let mut tokens = vec![
        Token::new(TokenKind::Operator, "(".to_string(), 0, 0),
        Token::new(TokenKind::Symbol, "x".to_string(), 0, 0),
        Token::new(TokenKind::Operator, ")".to_string(), 0, 0),
        Token::new(TokenKind::Operator, "=>".to_string(), 0, 0),
        Token::new(TokenKind::Number, "1".to_string(), 0, 0),
    ].into_iter().rev().collect();
    let lambda = Lambda::parse(&mut tokens);
    assert!(lambda.is_ok());
    assert_eq!(lambda.unwrap(), Lambda::new(vec!["x".to_string()], Box::new(Expression::Number(1))));
}

#[test]
fn test_lambda_with_two_arguments() {
    let mut tokens = vec![
        Token::new(TokenKind::Operator, "(".to_string(), 0, 0),
        Token::new(TokenKind::Symbol, "x".to_string(), 0, 0),
        Token::new(TokenKind::Symbol, "y".to_string(), 0, 0),
        Token::new(TokenKind::Operator, ")".to_string(), 0, 0),
        Token::new(TokenKind::Operator, "=>".to_string(), 0, 0),
        Token::new(TokenKind::Number, "1".to_string(), 0, 0),
    ].into_iter().rev().collect();

    let lambda = Lambda::parse(&mut tokens);
    assert!(lambda.is_ok());
    assert_eq!(lambda.unwrap(), Lambda::new(vec!["x".to_string(), "y".to_string()], Box::new(Expression::Number(1))));
}

#[test]
fn function_call_with_no_arguments() {
    let mut tokens = vec![
        Token::new(TokenKind::Symbol, "foo".to_string(), 0, 0),
        Token::new(TokenKind::Operator, "(".to_string(), 0, 0),
        Token::new(TokenKind::Operator, ")".to_string(), 0, 0),
    ].into_iter().rev().collect();
    let function_call = FunctionCall::parse(&mut tokens).unwrap();
    assert_eq!(function_call, FunctionCall::new("foo".to_string(), vec![]));
}

#[test]
fn function_call_bare_comma_is_an_error() {
    let mut tokens = vec![
        Token::new(TokenKind::Symbol, "foo".to_string(), 1, 1),
        Token::new(TokenKind::Operator, "(".to_string(), 1, 4),
        Token::new(TokenKind::Operator, ",".to_string(), 1, 5),
        Token::new(TokenKind::Operator, ")".to_string(), 1, 6),
    ].into_iter().rev().collect();
    let result = FunctionCall::parse(&mut tokens);
    assert_eq!(result, Err(ParseError::new("Expected expression", 5, 1)));
}

#[test]
fn function_call_missing_comma_is_an_error() {
    let mut tokens = vec![
        Token::new(TokenKind::Symbol, "foo".to_string(), 0, 0),
        Token::new(TokenKind::Operator, "(".to_string(), 0, 0),
        Token::new(TokenKind::Symbol, "bar".to_string(), 0, 0),
        Token::new(TokenKind::Symbol, "baz".to_string(), 0, 0),
        Token::new(TokenKind::Operator, ")".to_string(), 0, 0),
    ].into_iter().rev().collect();
    let result = FunctionCall::parse(&mut tokens);
    assert_eq!(result.unwrap_err().message, "Expected ','");
}

#[test]
fn if_with_else_branch() {
    let mut tokens = vec![
        Token::new(TokenKind::Symbol, "if".to_string(), 0, 0),
        Token::new(TokenKind::Number, "1".to_string(), 0, 0),
        Token::new(TokenKind::Number, "2".to_string(), 0, 0),
        Token::new(TokenKind::Symbol, "else".to_string(), 0, 0),
        Token::new(TokenKind::Number, "3".to_string(), 0, 0),
    ].into_iter().rev().collect();
    let result = IfExpr::parse(&mut tokens);
    assert_eq!(result.unwrap(), IfExpr::new(
        Expression::Number(1),
        Expression::Number(2),
        Some(Expression::Number(3)),
    ));
}

#[test]
fn number_token_overflowing_is_an_error() {
    let mut tokens = vec![
        Token::new(TokenKind::Number, "2147483648".to_string(), 1, 1),
    ];
    let result = Expression::parse(&mut tokens);
    assert_eq!(result, Err(ParseError::new("Expected number", 1, 1)));
}

#[test]
fn number_token_extremes_parse_exactly() {
    let mut tokens = vec![Token::new(TokenKind::Number, "2147483647".to_string(), 0, 0)];
    assert_eq!(Expression::parse(&mut tokens), Ok(Expression::Number(2147483647)));
    let mut tokens = vec![Token::new(TokenKind::Number, "-2147483648".to_string(), 0, 0)];
    assert_eq!(Expression::parse(&mut tokens), Ok(Expression::Number(-2147483648)));
    let mut tokens = vec![Token::new(TokenKind::Number, "+5".to_string(), 0, 0)];
    assert_eq!(Expression::parse(&mut tokens), Ok(Expression::Number(5)));
    let mut tokens = vec![Token::new(TokenKind::Number, "007".to_string(), 0, 0)];
    assert_eq!(Expression::parse(&mut tokens), Ok(Expression::Number(7)));
}

#[test]
fn unknown_operator_is_an_error() {
    let mut tokens = vec![Token::new(TokenKind::Operator, "+".to_string(), 3, 2)];
    let result = Expression::parse(&mut tokens);
    assert_eq!(result, Err(ParseError::new("Unknown Operator", 2, 3)));
}

#[test]
fn newline_token_is_an_error() {
    let mut tokens = vec![Token::new(TokenKind::NewLine, "\n".to_string(), 1, 4)];
    let result = Expression::parse(&mut tokens);
    assert_eq!(result, Err(ParseError::new("Unknown Token", 4, 1)));
}

#[test]
fn empty_stack_is_an_error() {
    let mut tokens: Vec<Token> = vec![];
    let result = Expression::parse(&mut tokens);
    assert_eq!(result, Err(ParseError::new("Unknown Parser Error", 0, 0)));
}

#[test]
fn bare_symbol_is_an_identifier() {
    let mut tokens = vec![
        Token::new(TokenKind::Symbol, "foo".to_string(), 0, 0),
        Token::new(TokenKind::Symbol, "bar".to_string(), 0, 0),
    ].into_iter().rev().collect();
    assert_eq!(Expression::parse(&mut tokens), Ok(Expression::Identifier("foo".to_string())));
    assert_eq!(Expression::parse(&mut tokens), Ok(Expression::Identifier("bar".to_string())));
    assert!(tokens.is_empty());
}

#[test]
fn string_literal_token_parses_verbatim() {
    let mut tokens = vec![Token::new(TokenKind::StringLiteral, "hi there".to_string(), 0, 0)];
    assert_eq!(Expression::parse(&mut tokens), Ok(Expression::StringLiteral("hi there".to_string())));
}
