use minilang::lexer::Token;
use minilang::lexer::tokenize;
use minilang::parse::Expression;
use minilang::parse::ParseError;
use minilang::parse::block::Block;
use minilang::parse::definition::Definition;
use minilang::parse::if_expr::IfExpr;
use minilang::parse::module::Module;
use minilang::parse::parse_module;

fn stack_of(source: &str) -> Vec<Token> {
    tokenize(source.to_string()).unwrap().into_iter().rev().collect()
}

#[test]
fn let_binding_round_trips_to_a_definition() {
    let mut tokens = stack_of("let x = 1");
    let result = Expression::parse(&mut tokens).unwrap();
    assert_eq!(
        result,
        Expression::Definition(Definition::new("x".to_string(), Box::new(Expression::Number(1))))
    );
    assert!(tokens.is_empty());
}

#[test]
fn empty_braces_parse_to_an_empty_block() {
    let mut tokens = stack_of("{}");
    assert_eq!(Block::parse(&mut tokens), Ok(Block::new(vec![])));
}

#[test]
fn braced_number_parses_to_a_singleton_block() {
    let mut tokens = stack_of("{1}");
    assert_eq!(Block::parse(&mut tokens), Ok(Block::new(vec![Expression::Number(1)])));
}

#[test]
fn stray_close_brace_fails_block_parsing() {
    let mut tokens = stack_of("}");
    assert_eq!(Block::parse(&mut tokens).unwrap_err().message, "Expected '{'");
}

#[test]
fn unclosed_brace_fails_block_parsing() {
    let mut tokens = stack_of("{");
    assert_eq!(Block::parse(&mut tokens), Err(ParseError::new("Expected '}'", 0, 0)));
}

#[test]
fn if_without_else_from_source() {
    let mut tokens = stack_of("if 1 2");
    assert_eq!(
        IfExpr::parse(&mut tokens),
        Ok(IfExpr::new(Expression::Number(1), Expression::Number(2), None))
    );
}

#[test]
fn if_with_else_from_source() {
    let mut tokens = stack_of("if 1 2 else 3");
    assert_eq!(
        IfExpr::parse(&mut tokens),
        Ok(IfExpr::new(
            Expression::Number(1),
            Expression::Number(2),
            Some(Expression::Number(3)),
        ))
    );
}

#[test]
fn empty_input_fails_module_parsing() {
    let mut tokens = stack_of("");
    assert_eq!(parse_module(&mut tokens), Err(ParseError::new("Expected expression", 0, 0)));
}

#[test]
fn two_numbers_parse_to_two_top_level_expressions() {
    let mut tokens = stack_of("1 2");
    assert_eq!(
        parse_module(&mut tokens),
        Ok(Module::new(vec![Expression::Number(1), Expression::Number(2)]))
    );
    assert!(tokens.is_empty());
}

#[test]
fn newline_between_expressions_is_a_parse_error() {
    // NewLine tokens stay in the stream, and no rule of the dispatcher
    // accepts one.
    let mut tokens = stack_of("1\n2");
    assert_eq!(parse_module(&mut tokens).unwrap_err().message, "Unknown Token");
}

#[test]
fn reparsing_a_fresh_copy_yields_an_identical_tree() {
    let mut first = stack_of("let x = {1 2}");
    let mut second = stack_of("let x = {1 2}");
    let a = parse_module(&mut first);
    let b = parse_module(&mut second);
    assert_eq!(a, b);
    assert_eq!(first, second);
}

#[test]
fn nested_blocks_parse_recursively() {
    let mut tokens = stack_of("{{1} 2}");
    assert_eq!(
        Block::parse(&mut tokens),
        Ok(Block::new(vec![
            Expression::Block(Block::new(vec![Expression::Number(1)])),
            Expression::Number(2),
        ]))
    );
}

#[test]
fn string_literals_flow_through_the_whole_pipeline() {
    let mut tokens = stack_of("let s = \"hello\"");
    assert_eq!(
        Expression::parse(&mut tokens),
        Ok(Expression::Definition(Definition::new(
            "s".to_string(),
            Box::new(Expression::StringLiteral("hello".to_string())),
        )))
    );
}
