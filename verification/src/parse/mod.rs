//! Recursive-descent parsing: turns a token stream into an abstract syntax
//! tree.  The token stream is consumed as a stack: the next token in source
//! order is the last element of the vector, so producers must present the
//! token list back to front.

pub mod block;
pub mod definition;
pub mod function_call;
pub mod grammar;
pub mod if_expr;
pub mod lambda;
pub mod module;
pub mod number;

use vstd::prelude::*;
use crate::lexer::Token;
use crate::lexer::TokenKind;
use crate::lexer::token_v;
use crate::lexer::toks_v;
use crate::parse::grammar::expr_res_v;
use crate::parse::grammar::is_op;
use crate::parse::grammar::is_sym;
use crate::parse::grammar::module_res_v;
use crate::parse::grammar::sp_parse_expression;
use crate::parse::grammar::sp_parse_module;

verus! {

/// The sum type of every expression form the grammar can produce.
#[derive(Debug, PartialEq)]
pub enum Expression {
    Definition(definition::Definition),
    Number(i32),
    Block(block::Block),
    Lambda(lambda::Lambda),
    IfExpr(if_expr::IfExpr),
    Identifier(String),
    FunctionCall(function_call::FunctionCall),
    StringLiteral(String),
}

/// A syntactic failure: a message and the best-effort position of the
/// offending token (`0, 0` when the stream was already exhausted).
#[derive(Debug, PartialEq)]
pub struct ParseError {
    pub message: String,
    pub line: usize,
    pub column: usize,
}

/// The mathematical model of a parse failure.
pub struct ParseErrV {
    pub message: Seq<char>,
    pub line: nat,
    pub column: nat,
}

pub open spec fn parse_err_v(e: ParseError) -> ParseErrV {
    ParseErrV { message: e.message@, line: e.line as nat, column: e.column as nat }
}

impl ParseError {
    pub fn new(message: &str, line: usize, column: usize) -> (e: ParseError)
        ensures
            parse_err_v(e) == (ParseErrV {
                message: message@,
                line: line as nat,
                column: column as nat,
            }),
    {
        ParseError { message: String::from_str(message), line, column }
    }
}

/// True when the text of the string equals the literal.
pub(crate) fn value_is(v: &String, lit: &str) -> (r: bool)
    ensures
        r == (v@ == lit@),
{
    let l = String::from_str(lit);
    *v == l
}

/// True when the token is the operator written as `lit`.
pub(crate) fn token_is_op(t: &Token, lit: &str) -> (r: bool)
    ensures
        r == is_op(token_v(*t), lit@),
{
    t.kind == TokenKind::Operator && value_is(&t.value, lit)
}

/// True when the token is the symbol written as `lit`.
pub(crate) fn token_is_sym(t: &Token, lit: &str) -> (r: bool)
    ensures
        r == is_sym(token_v(*t), lit@),
{
    t.kind == TokenKind::Symbol && value_is(&t.value, lit)
}

impl Expression {
    /// Parses one expression from the top of the stack, dispatching on the
    /// top token (and, to tell a call from a bare identifier, on the token
    /// under it).  The outcome and the remaining stack are exactly those of
    /// `sp_parse_expression`; on success at least one token is consumed.
    pub fn parse(tokens: &mut Vec<Token>) -> (result: Result<Expression, ParseError>)
        ensures
            sp_parse_expression(toks_v(old(tokens)@)) == (
                expr_res_v(result),
                toks_v(final(tokens)@),
            ),
            final(tokens)@.len() <= old(tokens)@.len(),
            result is Ok ==> final(tokens)@.len() < old(tokens)@.len(),
        decreases tokens@.len(), 3int,
    {
        let ghost t0 = toks_v(tokens@);
        if tokens.len() == 0 {
            return Err(ParseError::new("Unknown Parser Error", 0, 0));
        }
        let kind = tokens[tokens.len() - 1].kind;
        match kind {
            TokenKind::Number => {
                let tok = tokens.pop().unwrap();
                proof {
                    assert(toks_v(tokens@) =~= t0.drop_last());
                }
                match number::parse_i32(&tok.value) {
                    Some(n) => Ok(Expression::Number(n)),
                    None => Err(ParseError::new("Expected number", tok.line, tok.column)),
                }
            },
            TokenKind::Operator => {
                if token_is_op(&tokens[tokens.len() - 1], "{") {
                    match block::Block::parse(tokens) {
                        Ok(b) => Ok(Expression::Block(b)),
                        Err(e) => Err(e),
                    }
                } else if token_is_op(&tokens[tokens.len() - 1], "(") {
                    match lambda::Lambda::parse(tokens) {
                        Ok(l) => Ok(Expression::Lambda(l)),
                        Err(e) => Err(e),
                    }
                } else {
                    let line = tokens[tokens.len() - 1].line;
                    let column = tokens[tokens.len() - 1].column;
                    Err(ParseError::new("Unknown Operator", line, column))
                }
            },
            TokenKind::Symbol => {
                if token_is_sym(&tokens[tokens.len() - 1], "let") {
                    match definition::Definition::parse(tokens) {
                        Ok(d) => Ok(Expression::Definition(d)),
                        Err(e) => Err(e),
                    }
                } else if token_is_sym(&tokens[tokens.len() - 1], "if") {
                    match if_expr::IfExpr::parse(tokens) {
                        Ok(f) => Ok(Expression::IfExpr(f)),
                        Err(e) => Err(e),
                    }
                } else if tokens.len() < 2 {
                    let tok = tokens.pop().unwrap();
                    proof {
                        assert(toks_v(tokens@) =~= t0.drop_last());
                    }
                    Ok(Expression::Identifier(tok.value))
                } else if token_is_op(&tokens[tokens.len() - 2], "(") {
                    match function_call::FunctionCall::parse(tokens) {
                        Ok(c) => Ok(Expression::FunctionCall(c)),
                        Err(e) => Err(e),
                    }
                } else {
                    let tok = tokens.pop().unwrap();
                    proof {
                        assert(toks_v(tokens@) =~= t0.drop_last());
                    }
                    Ok(Expression::Identifier(tok.value))
                }
            },
            TokenKind::StringLiteral => {
                let tok = tokens.pop().unwrap();
                proof {
                    assert(toks_v(tokens@) =~= t0.drop_last());
                }
                Ok(Expression::StringLiteral(tok.value))
            },
            TokenKind::NewLine => {
                let line = tokens[tokens.len() - 1].line;
                let column = tokens[tokens.len() - 1].column;
                Err(ParseError::new("Unknown Token", line, column))
            },
        }
    }
}

/// Entry point for whole-program parsing: see `Module::parse`.
pub fn parse_module(tokens: &mut Vec<Token>) -> (result: Result<module::Module, ParseError>)
    ensures
        sp_parse_module(toks_v(old(tokens)@)) == (module_res_v(result), toks_v(final(tokens)@)),
{
    module::Module::parse(tokens)
}

} // verus!
