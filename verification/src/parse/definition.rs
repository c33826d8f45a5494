//! The definition rule: `'let' identifier '=' expression`.

use vstd::prelude::*;
use crate::lexer::Token;
use crate::lexer::TokenKind;
use crate::lexer::toks_v;
use crate::parse::Expression;
use crate::parse::ParseError;
use crate::parse::grammar::def_res_v;
use crate::parse::grammar::sp_parse_definition;
use crate::parse::token_is_op;
use crate::parse::token_is_sym;

verus! {

/// A named binding of an expression: `let <identifier> = <expression>`.
#[derive(Debug, PartialEq)]
pub struct Definition {
    pub identifier: String,
    pub expression: Box<Expression>,
}

impl Definition {
    pub fn new(identifier: String, expression: Box<Expression>) -> (d: Definition)
        ensures
            d.identifier == identifier,
            d.expression == expression,
    {
        Definition { identifier, expression }
    }

    /// Parses `'let' identifier '=' expression` from the stack top; the
    /// outcome and the remaining stack are exactly those of
    /// `sp_parse_definition`.
    pub fn parse(tokens: &mut Vec<Token>) -> (result: Result<Definition, ParseError>)
        ensures
            sp_parse_definition(toks_v(old(tokens)@)) == (
                def_res_v(result),
                toks_v(final(tokens)@),
            ),
            final(tokens)@.len() <= old(tokens)@.len(),
            result is Ok ==> final(tokens)@.len() < old(tokens)@.len(),
        decreases tokens@.len(), 2int,
    {
        let ghost t0 = toks_v(tokens@);
        if tokens.len() == 0 {
            return Err(ParseError::new("Expected 'let' keyword", 0, 0));
        }
        if !token_is_sym(&tokens[tokens.len() - 1], "let") {
            let line = tokens[tokens.len() - 1].line;
            let column = tokens[tokens.len() - 1].column;
            return Err(ParseError::new("Expected 'let' keyword", line, column));
        }
        tokens.pop();
        proof {
            assert(toks_v(tokens@) =~= t0.drop_last());
        }
        if tokens.len() == 0 {
            return Err(ParseError::new("Expected identifier", 0, 0));
        }
        let ghost t1 = toks_v(tokens@);
        let id = tokens.pop().unwrap();
        proof {
            assert(toks_v(tokens@) =~= t1.drop_last());
        }
        if id.kind != TokenKind::Symbol {
            return Err(ParseError::new("Expected identifier", id.line, id.column));
        }
        if tokens.len() == 0 {
            return Err(ParseError::new("Expected '='", 0, 0));
        }
        if !token_is_op(&tokens[tokens.len() - 1], "=") {
            let line = tokens[tokens.len() - 1].line;
            let column = tokens[tokens.len() - 1].column;
            return Err(ParseError::new("Expected '='", line, column));
        }
        let ghost t2 = toks_v(tokens@);
        tokens.pop();
        proof {
            assert(toks_v(tokens@) =~= t2.drop_last());
        }
        let expression = match Expression::parse(tokens) {
            Ok(e) => e,
            Err(e) => {
                return Err(e);
            },
        };
        Ok(Definition::new(id.value, Box::new(expression)))
    }
}

} // verus!
